//! `tree`: a directory and what lies below it, down to a given depth.

use crate::shell::commands::fs::{display_name, is_option, keep, kept, Filter};
use crate::shell::commands::listing::{sort_entries, sorted};
use crate::shell::commands::types::{
    done, entry_views, frame_views, DirEntry, EntryView, FrameView, Step, StepView, SysError,
    TaskView, TreeFrame,
};
use crate::shell::commands::{CommandResult, Task};
use crate::shell::context::ShellContext;
use crate::shell::path::{join_path, join_to, resolve, resolve_path};
use crate::state::terminal::{TerminalState, TerminalView};
use crate::text::{spells, str_texts, to_chars};
use vstd::prelude::*;

verus! {

/// Depth to which `tree` descends unless told otherwise.
pub const DEFAULT_DEPTH: usize = 3;

/// The value of a decimal digit.
pub open spec fn digit_value(c: char) -> Option<nat> {
    if '0' <= c <= '9' {
        Some((c as nat - '0' as nat) as nat)
    } else {
        None
    }
}

/// The number that the digits `s` spell, if all are digits.
pub open spec fn digits_value(s: Seq<char>) -> Option<nat>
    decreases s.len(),
{
    if s.len() == 0 {
        Some(0)
    } else {
        match (digits_value(s.drop_last()), digit_value(s.last())) {
            (Some(v), Some(d)) => Some(v * 10 + d),
            _ => None,
        }
    }
}

/// `s` without a leading `+`.
pub open spec fn unsigned(s: Seq<char>) -> Seq<char> {
    if s.len() > 0 && s[0] == '+' {
        s.drop_first()
    } else {
        s
    }
}

/// The number that `s` spells: decimal digits, at least one, after at
/// most one `+`, and no greater than `usize::MAX`.
pub open spec fn parse_number(s: Seq<char>) -> Option<nat> {
    if unsigned(s).len() == 0 {
        None
    } else {
        match digits_value(unsigned(s)) {
            Some(v) => if v <= usize::MAX {
                Some(v)
            } else {
                None
            },
            None => None,
        }
    }
}

proof fn lemma_digits_prefix(s: Seq<char>, k: int)
    requires
        0 <= k <= s.len(),
        digits_value(s) is Some,
    ensures
        digits_value(s.take(k)) is Some,
        digits_value(s.take(k))->Some_0 <= digits_value(s)->Some_0,
    decreases s.len(),
{
    if k == s.len() {
        assert(s.take(k) =~= s);
    } else {
        assert(s.drop_last().take(k) =~= s.take(k));
        lemma_digits_prefix(s.drop_last(), k);
    }
}

/// Parses a decimal number.
pub fn parse_usize(text: &str) -> (n: Option<usize>)
    ensures
        match n {
            Some(v) => parse_number(text@) == Some(v as nat),
            None => parse_number(text@) is None,
        },
{
    let chars = to_chars(text);
    let start: usize = if chars.len() > 0 && chars[0] == '+' {
        1
    } else {
        0
    };
    let ghost body = unsigned(chars@);
    proof {
        assert(body =~= chars@.skip(start as int));
    }
    if start == chars.len() {
        return None;
    }
    let mut value: usize = 0;
    let mut i: usize = start;
    proof {
        assert(body.take(0) =~= Seq::<char>::empty());
    }
    while i < chars.len()
        invariant
            start <= i <= chars.len(),
            chars@ == text@,
            body == unsigned(text@),
            body == chars@.skip(start as int),
            body.len() > 0,
            digits_value(body.take(i - start)) == Some(value as nat),
        decreases chars.len() - i,
    {
        let c = chars[i];
        proof {
            assert(body.take(i + 1 - start).drop_last() =~= body.take(i - start));
            assert(body.take(i + 1 - start).last() == c);
            if digits_value(body) is Some {
                lemma_digits_prefix(body, i + 1 - start);
            }
        }
        if !('0' <= c && c <= '9') {
            return None;
        }
        let d = (c as u32 - '0' as u32) as usize;
        let next = match value.checked_mul(10) {
            Some(v) => v.checked_add(d),
            None => None,
        };
        match next {
            Some(v) => {
                value = v;
            },
            None => {
                return None;
            },
        }
        i += 1;
    }
    proof {
        assert(body.take(body.len() as int) =~= body);
    }
    Some(value)
}

/// What the arguments of `tree` ask for.
pub struct TreeOptions {
    /// The directory named last, if any.
    pub path: Option<Seq<char>>,
    /// How many levels are shown.
    pub max_depth: nat,
}

/// The options after the arguments from `i` on. `-d` takes the next
/// argument as the depth and keeps the depth it had if that is no
/// number; other options are ignored.
pub open spec fn tree_scan(args: Seq<Seq<char>>, i: nat, o: TreeOptions) -> TreeOptions
    decreases args.len() - i,
{
    if i >= args.len() {
        o
    } else if args[i as int] == "-d"@ {
        if i + 1 < args.len() {
            tree_scan(
                args,
                i + 2,
                match parse_number(args[(i + 1) as int]) {
                    Some(d) => TreeOptions { max_depth: d, ..o },
                    None => o,
                },
            )
        } else {
            tree_scan(args, i + 1, o)
        }
    } else if !is_option(args[i as int]) {
        tree_scan(args, i + 1, TreeOptions { path: Some(args[i as int]), ..o })
    } else {
        tree_scan(args, i + 1, o)
    }
}

/// The options that `args` ask for.
pub open spec fn tree_options(args: Seq<Seq<char>>) -> TreeOptions {
    tree_scan(args, 0, TreeOptions { path: None, max_depth: DEFAULT_DEPTH as nat })
}

/// The directory that `tree` starts at.
pub open spec fn tree_target(cwd: Seq<char>, o: TreeOptions) -> Seq<char> {
    resolve(
        cwd,
        match o.path {
            Some(p) => p,
            None => cwd,
        },
    )
}

/// The line of one entry: the prefix of its directory, a connector (a
/// corner for the last entry), and the name.
pub open spec fn tree_line(prefix: Seq<char>, e: EntryView, is_last: bool) -> Seq<char> {
    prefix + (if is_last {
        "└── "@
    } else {
        "├── "@
    }) + display_name(e) + "\n"@
}

/// The prefix of the lines below an entry: a rule continues the
/// directory above unless the entry was its last.
pub open spec fn child_prefix(prefix: Seq<char>, is_last: bool) -> Seq<char> {
    prefix + if is_last {
        "    "@
    } else {
        "│   "@
    }
}

/// Entries of the innermost directory that are still to be shown.
pub open spec fn pending(stack: Seq<FrameView>) -> nat {
    if stack.len() > 0 && stack.last().next < stack.last().entries.len() {
        (stack.last().entries.len() - stack.last().next) as nat
    } else {
        0
    }
}

/// Terminal and step of a command when it stops.
pub struct Run {
    pub output: TerminalView,
    pub step: StepView,
}

/// `tree` going on with the directories on `stack`, innermost last:
/// entries are printed until one is a directory within the depth, whose
/// entries are then asked for; a directory that is done is left.
pub open spec fn tree_advance(out: TerminalView, stack: Seq<FrameView>, max_depth: nat) -> Run
    decreases stack.len(), pending(stack),
{
    if stack.len() == 0 {
        Run { output: out, step: done() }
    } else {
        let top = stack.last();
        if top.next >= top.entries.len() {
            tree_advance(out, stack.drop_last(), max_depth)
        } else {
            let e = top.entries[top.next as int];
            let is_last = top.next + 1 == top.entries.len();
            let printed = out.write_str(tree_line(top.prefix, e, is_last));
            let rest = stack.drop_last().push(FrameView { next: top.next + 1, ..top });
            if e.is_dir && stack.len() < max_depth {
                Run {
                    output: printed,
                    step: StepView::Wait(
                        TaskView::Tree {
                            stack: rest,
                            path: join_to(top.path, e.name),
                            prefix: child_prefix(top.prefix, is_last),
                            max_depth,
                        },
                    ),
                }
            } else {
                tree_advance(printed, rest, max_depth)
            }
        }
    }
}

/// What `tree` does with a reply: a directory that opened is entered,
/// with its entries but `.` and `..` in order of name; one that did not
/// is passed over in silence.
pub open spec fn tree_entered(
    out: TerminalView,
    stack: Seq<FrameView>,
    path: Seq<char>,
    prefix: Seq<char>,
    max_depth: nat,
    reply: Result<Seq<EntryView>, SysError>,
) -> Run {
    match reply {
        Ok(entries) => tree_advance(
            out,
            stack.push(
                FrameView { path, prefix, entries: sorted(kept(entries, Filter::Named), false), next: 0 },
            ),
            max_depth,
        ),
        Err(_) => tree_advance(out, stack, max_depth),
    }
}

/// Where `tree` stands after printing its root.
pub open spec fn tree_start_step(cwd: Seq<char>, args: Seq<Seq<char>>) -> StepView {
    let o = tree_options(args);
    if o.max_depth == 0 {
        done()
    } else {
        StepView::Wait(
            TaskView::Tree {
                stack: Seq::empty(),
                path: tree_target(cwd, o),
                prefix: Seq::empty(),
                max_depth: o.max_depth,
            },
        )
    }
}

/// `tree`: prints the root and asks for its entries.
pub fn cmd_tree(output: &mut TerminalState, ctx: &mut ShellContext, args: &[&str]) -> (step: Step)
    requires
        old(output).wf(),
    ensures
        final(output)@ == old(output)@.write_line(
            tree_target(old(ctx)@.cwd, tree_options(str_texts(args@))),
        ),
        final(output).wf(),
        final(output)@.same_size(old(output)@),
        final(ctx)@ == old(ctx)@,
        step@ == tree_start_step(old(ctx)@.cwd, str_texts(args@)),
{
    let mut path: Option<&str> = None;
    let mut max_depth: usize = DEFAULT_DEPTH;
    let mut i: usize = 0;
    let ghost all = str_texts(args@);
    while i < args.len()
        invariant
            i <= args.len(),
            all == str_texts(args@),
            tree_options(all) == tree_scan(
                all,
                i as nat,
                TreeOptions {
                    path: match path {
                        Some(p) => Some(p@),
                        None => None,
                    },
                    max_depth: max_depth as nat,
                },
            ),
        decreases args.len() - i,
    {
        let word = to_chars(args[i]);
        proof {
            assert(all[i as int] == args@[i as int]@);
        }
        if spells(&word, "-d") {
            if i + 1 < args.len() {
                proof {
                    assert(all[i + 1] == args@[i + 1]@);
                }
                match parse_usize(args[i + 1]) {
                    Some(d) => {
                        max_depth = d;
                    },
                    None => {},
                }
                i += 1;
            }
        } else if !(word.len() > 0 && word[0] == '-') {
            path = Some(args[i]);
        }
        i += 1;
    }
    let target = match path {
        Some(p) => resolve_path(ctx.cwd(), p),
        None => resolve_path(ctx.cwd(), ctx.cwd()),
    };
    output.write_line(target.as_str());
    if max_depth == 0 {
        Step::Done(CommandResult::Continue)
    } else {
        let stack: Vec<TreeFrame> = Vec::new();
        proof {
            assert(frame_views(stack@) =~= Seq::<FrameView>::empty());
        }
        Step::Wait(Task::Tree { stack, path: target, prefix: String::new(), max_depth })
    }
}

fn tree_run(output: &mut TerminalState, stack: Vec<TreeFrame>, max_depth: usize) -> (step: Step)
    requires
        old(output).wf(),
    ensures
        final(output).wf(),
        final(output)@.same_size(old(output)@),
        final(output)@ == tree_advance(old(output)@, frame_views(stack@), max_depth as nat).output,
        step@ == tree_advance(old(output)@, frame_views(stack@), max_depth as nat).step,
        step@ matches StepView::Wait(t) ==> t.wf(),
{
    let ghost goal = tree_advance(output@, frame_views(stack@), max_depth as nat);
    let mut frames = stack;
    while frames.len() > 0
        invariant
            output.wf(),
            output@.same_size(old(output)@),
            goal == tree_advance(old(output)@, frame_views(stack@), max_depth as nat),
            goal == tree_advance(output@, frame_views(frames@), max_depth as nat),
        decreases frames.len(), pending(frame_views(frames@)),
    {
        let ghost before = frame_views(frames@);
        let ghost out = output@;
        let depth = frames.len();
        let mut top = frames.pop().unwrap();
        proof {
            assert(before.last() == top@);
            assert(frame_views(frames@) =~= before.drop_last());
        }
        if top.next < top.entries.len() {
            let is_last = top.next + 1 == top.entries.len();
            let entry = &top.entries[top.next];
            let descend = entry.is_dir && depth < max_depth;
            let mut line = top.prefix.clone();
            line.append(if is_last {
                "└── "
            } else {
                "├── "
            });
            if entry.is_dir {
                line.append("[");
                line.append(entry.name.as_str());
                line.append("]");
            } else {
                line.append(entry.name.as_str());
            }
            line.append("\n");
            let child = join_path(top.path.as_str(), entry.name.as_str());
            let mut below = top.prefix.clone();
            below.append(if is_last {
                "    "
            } else {
                "│   "
            });
            proof {
                assert(entry@ == top@.entries[top.next as int]);
                assert(line@ =~= tree_line(top@.prefix, entry@, is_last));
            }
            output.write_str(line.as_str());
            let ghost old_top = top@;
            top.next = top.next + 1;
            frames.push(top);
            proof {
                let rest = before.drop_last().push(FrameView { next: old_top.next + 1, ..old_top });
                assert(frame_views(frames@) =~= rest);
                assert(child@ == join_to(old_top.path, entry@.name));
                assert(below@ == child_prefix(old_top.prefix, is_last));
                if descend {
                    assert(goal == Run {
                        output: output@,
                        step: StepView::Wait(
                            TaskView::Tree {
                                stack: rest,
                                path: child@,
                                prefix: below@,
                                max_depth: max_depth as nat,
                            },
                        ),
                    });
                } else {
                    assert(goal == tree_advance(output@, rest, max_depth as nat));
                }
            }
            if descend {
                return Step::Wait(Task::Tree { stack: frames, path: child, prefix: below, max_depth });
            }
        } else {
            proof {
                assert(goal == tree_advance(out, before.drop_last(), max_depth as nat));
            }
        }
    }
    proof {
        assert(frame_views(frames@) =~= Seq::<FrameView>::empty());
    }
    Step::Done(CommandResult::Continue)
}

/// `tree`, once the directory `path` has answered.
pub fn tree_reply(
    output: &mut TerminalState,
    stack: Vec<TreeFrame>,
    path: String,
    prefix: String,
    max_depth: usize,
    reply: Result<Vec<DirEntry>, SysError>,
) -> (step: Step)
    requires
        old(output).wf(),
    ensures
        final(output).wf(),
        final(output)@.same_size(old(output)@),
        final(output)@ == tree_entered(
            old(output)@,
            frame_views(stack@),
            path@,
            prefix@,
            max_depth as nat,
            match reply {
                Ok(entries) => Ok(entry_views(entries@)),
                Err(e) => Err(e),
            },
        ).output,
        step@ == tree_entered(
            old(output)@,
            frame_views(stack@),
            path@,
            prefix@,
            max_depth as nat,
            match reply {
                Ok(entries) => Ok(entry_views(entries@)),
                Err(e) => Err(e),
            },
        ).step,
        step@ matches StepView::Wait(t) ==> t.wf(),
{
    let mut stack = stack;
    match reply {
        Ok(entries) => {
            let ghost before = frame_views(stack@);
            let shown = sort_entries(keep(entries, Filter::Named), false);
            let frame = TreeFrame { path, prefix, entries: shown, next: 0 };
            stack.push(frame);
            proof {
                assert(frame_views(stack@) =~= before.push(frame@));
            }
            tree_run(output, stack, max_depth)
        },
        Err(_) => tree_run(output, stack, max_depth),
    }
}

} // verus!

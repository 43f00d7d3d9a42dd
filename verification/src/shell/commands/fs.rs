//! Commands on files and directories.
//!
//! None of them touches the file system: each stops with a task and goes
//! on, in a function of its own, with what the system replied.

use crate::shell::commands::listing::{sort_entries, sorted};
use crate::shell::commands::number::{decimal, format_number};
use crate::shell::commands::types::{
    done, entry_views, DirEntry, EntryView, FileStat, Step, StepView, SysError, TaskView,
};
use crate::shell::commands::{CommandResult, Task};
use crate::shell::context::{ContextView, ShellContext};
use crate::shell::path::{is_normalized, resolve, resolve_path};
use crate::state::terminal::TerminalState;
use crate::text::{push_char, spells, str_texts, texts, to_chars, utf8_text};
use vstd::prelude::*;

verus! {

/// What `cat` prints without arguments.
pub const CAT_USAGE: &'static str = "cat: falta operando arquivo
Uso: cat <arquivo>
";

/// What `cat` prints for bytes that are not UTF-8.
pub const BINARY_NOTICE: &'static str = "(conteudo binario nao exibido)
";

/// The head of the detailed listing.
pub const LS_HEADER: &'static str = "TIPO  TAMANHO  NOME
----  -------  ----
";

/// Width at which the plain listing starts a new line.
pub const LINE_WIDTH: usize = 70;

/// The reason shown for an error.
pub open spec fn error_text(e: SysError) -> Seq<char> {
    match e {
        SysError::NotFound => "Nao encontrado"@,
        SysError::PermissionDenied => "Permissao negada"@,
        SysError::IsDirectory => "E um diretorio"@,
        SysError::NotDirectory => "Nao e um diretorio"@,
        SysError::NotImplemented => "Nao implementado"@,
        SysError::IoError => "Erro de E/S"@,
        SysError::Other => "Erro desconhecido"@,
    }
}

/// The reason shown for an error.
pub fn error_to_str(e: SysError) -> (s: &'static str)
    ensures
        s@ == error_text(e),
{
    match e {
        SysError::NotFound => "Nao encontrado",
        SysError::PermissionDenied => "Permissao negada",
        SysError::IsDirectory => "E um diretorio",
        SysError::NotDirectory => "Nao e um diretorio",
        SysError::NotImplemented => "Nao implementado",
        SysError::IoError => "Erro de E/S",
        SysError::Other => "Erro desconhecido",
    }
}

/// The one-line report of a failure: `<cmd>: <path>: <reason>`.
pub open spec fn failure_text(cmd: Seq<char>, path: Seq<char>, reason: Seq<char>) -> Seq<char> {
    cmd + ": "@ + path + ": "@ + reason + "\n"@
}

fn report(output: &mut TerminalState, cmd: &str, path: &str, reason: &str)
    requires
        old(output).wf(),
    ensures
        final(output)@ == old(output)@.write_str(failure_text(cmd@, path@, reason@)),
        final(output).wf(),
        final(output)@.same_size(old(output)@),
{
    let mut msg = String::from_str(cmd);
    msg.append(": ");
    msg.append(path);
    msg.append(": ");
    msg.append(reason);
    msg.append("\n");
    output.write_str(msg.as_str());
}

/// The notice of a command that would have to write to the file system.
pub open spec fn read_only_text(cmd: Seq<char>) -> Seq<char> {
    cmd + ": Nao implementado\n(O filesystem ainda e somente leitura)\n"@
}

fn read_only(output: &mut TerminalState, cmd: &str)
    requires
        old(output).wf(),
    ensures
        final(output)@ == old(output)@.write_str(read_only_text(cmd@)),
        final(output).wf(),
        final(output)@.same_size(old(output)@),
{
    let mut msg = String::from_str(cmd);
    msg.append(": Nao implementado\n(O filesystem ainda e somente leitura)\n");
    output.write_str(msg.as_str());
}

// ---------------------------------------------------------------- ls

/// What the arguments of `ls` ask for.
pub struct LsOptions {
    /// `-l`: one entry per line, with its kind.
    pub details: bool,
    /// `-a`: names that start with `.` too.
    pub hidden: bool,
    /// `--json`.
    pub json: bool,
    /// The directory named last, if any.
    pub path: Option<Seq<char>>,
}

/// Whether `arg` starts with `-`.
pub open spec fn is_option(arg: Seq<char>) -> bool {
    arg.len() > 0 && arg[0] == '-'
}

/// The options after one more argument, or the argument if it is an
/// option that `ls` does not know.
pub open spec fn ls_option(o: LsOptions, arg: Seq<char>) -> Result<LsOptions, Seq<char>> {
    if arg == "-l"@ {
        Ok(LsOptions { details: true, ..o })
    } else if arg == "-a"@ {
        Ok(LsOptions { hidden: true, ..o })
    } else if arg == "--json"@ {
        Ok(LsOptions { json: true, ..o })
    } else if arg == "-la"@ || arg == "-al"@ {
        Ok(LsOptions { details: true, hidden: true, ..o })
    } else if !is_option(arg) {
        Ok(LsOptions { path: Some(arg), ..o })
    } else {
        Err(arg)
    }
}

/// The options that `args` ask for, or the first unknown option.
pub open spec fn ls_options(args: Seq<Seq<char>>) -> Result<LsOptions, Seq<char>>
    decreases args.len(),
{
    if args.len() == 0 {
        Ok(LsOptions { details: false, hidden: false, json: false, path: None })
    } else {
        match ls_options(args.drop_last()) {
            Ok(o) => ls_option(o, args.last()),
            Err(bad) => Err(bad),
        }
    }
}

/// The directory that `ls` lists: the one named, else the working
/// directory.
pub open spec fn ls_target(cwd: Seq<char>, o: LsOptions) -> Seq<char> {
    resolve(
        cwd,
        match o.path {
            Some(p) => p,
            None => cwd,
        },
    )
}

/// What `ls` prints before it asks for the directory.
pub open spec fn ls_start_text(args: Seq<Seq<char>>) -> Seq<char> {
    match ls_options(args) {
        Err(bad) => "ls: opcao desconhecida: "@ + bad + "\n"@,
        Ok(o) => if o.json {
            "ls --json: Nao implementado ainda\n"@
        } else {
            Seq::empty()
        },
    }
}

/// Where `ls` stands after reading its arguments.
pub open spec fn ls_start_step(cwd: Seq<char>, args: Seq<Seq<char>>) -> StepView {
    match ls_options(args) {
        Err(bad) => done(),
        Ok(o) => if o.json {
            done()
        } else {
            StepView::Wait(
                TaskView::Ls { path: ls_target(cwd, o), details: o.details, hidden: o.hidden },
            )
        },
    }
}

/// `ls`: reads the options and asks for the entries of the directory.
pub fn cmd_ls(output: &mut TerminalState, ctx: &mut ShellContext, args: &[&str]) -> (step: Step)
    requires
        old(output).wf(),
    ensures
        final(output)@ == old(output)@.write_str(ls_start_text(str_texts(args@))),
        final(output).wf(),
        final(output)@.same_size(old(output)@),
        final(ctx)@ == old(ctx)@,
        step@ == ls_start_step(old(ctx)@.cwd, str_texts(args@)),
{
    let mut details = false;
    let mut hidden = false;
    let mut json = false;
    let mut path: Option<&str> = None;
    let mut bad: Option<&str> = None;
    let mut i: usize = 0;
    let ghost all = str_texts(args@);
    proof {
        assert(all.take(0) =~= Seq::<Seq<char>>::empty());
    }
    while i < args.len()
        invariant
            i <= args.len(),
            all == str_texts(args@),
            ls_options(all.take(i as int)) == match bad {
                Some(b) => Err::<LsOptions, Seq<char>>(b@),
                None => Ok(
                    LsOptions {
                        details,
                        hidden,
                        json,
                        path: match path {
                            Some(p) => Some(p@),
                            None => None,
                        },
                    },
                ),
            },
        decreases args.len() - i,
    {
        proof {
            assert(all.take(i + 1).drop_last() =~= all.take(i as int));
            assert(all.take(i + 1).last() == args@[i as int]@);
        }
        if bad.is_none() {
            let arg = args[i];
            let word = to_chars(arg);
            if spells(&word, "-l") {
                details = true;
            } else if spells(&word, "-a") {
                hidden = true;
            } else if spells(&word, "--json") {
                json = true;
            } else if spells(&word, "-la") || spells(&word, "-al") {
                details = true;
                hidden = true;
            } else if !(word.len() > 0 && word[0] == '-') {
                path = Some(arg);
            } else {
                bad = Some(arg);
            }
        }
        i += 1;
    }
    proof {
        assert(all.take(all.len() as int) =~= all);
    }
    match bad {
        Some(b) => {
            let mut msg = String::from_str("ls: opcao desconhecida: ");
            msg.append(b);
            msg.append("\n");
            output.write_str(msg.as_str());
            Step::Done(CommandResult::Continue)
        },
        None => {
            if json {
                output.write_str("ls --json: Nao implementado ainda\n");
                Step::Done(CommandResult::Continue)
            } else {
                let target = match path {
                    Some(p) => resolve_path(ctx.cwd(), p),
                    None => resolve_path(ctx.cwd(), ctx.cwd()),
                };
                Step::Wait(Task::Ls { path: target, details, hidden })
            }
        },
    }
}

/// Which entries of a directory a command shows.
#[derive(Clone, Copy, Debug, PartialEq, Eq, Structural)]
pub enum Filter {
    /// Every entry.
    All,
    /// Entries whose name does not start with `.`.
    Visible,
    /// Every entry but `.` and `..`.
    Named,
}

/// Whether `rule` keeps `e`.
pub open spec fn keeps(rule: Filter, e: EntryView) -> bool {
    match rule {
        Filter::All => true,
        Filter::Visible => !(e.name.len() > 0 && e.name[0] == '.'),
        Filter::Named => e.name != "."@ && e.name != ".."@,
    }
}

/// The entries that `rule` keeps, in the order given.
pub open spec fn kept(entries: Seq<EntryView>, rule: Filter) -> Seq<EntryView>
    decreases entries.len(),
{
    if entries.len() == 0 {
        Seq::empty()
    } else if keeps(rule, entries.last()) {
        kept(entries.drop_last(), rule).push(entries.last())
    } else {
        kept(entries.drop_last(), rule)
    }
}

/// The rule of `ls`: names that start with `.` only with `hidden`.
pub open spec fn ls_rule(hidden: bool) -> Filter {
    if hidden {
        Filter::All
    } else {
        Filter::Visible
    }
}

/// How an entry is shown: a directory in brackets.
pub open spec fn display_name(e: EntryView) -> Seq<char> {
    if e.is_dir {
        "["@ + e.name + "]"@
    } else {
        e.name
    }
}

/// The lines of the detailed listing, one per entry.
pub open spec fn detail_rows(entries: Seq<EntryView>) -> Seq<char>
    decreases entries.len(),
{
    if entries.len() == 0 {
        Seq::empty()
    } else {
        detail_rows(entries.drop_last()) + (if entries.last().is_dir {
            "DIR "@
        } else {
            "FILE"@
        }) + "         -  "@ + display_name(entries.last()) + "\n"@
    }
}

/// Number of bytes of `s` in UTF-8, as `str::len` counts them.
pub open spec fn byte_len(s: Seq<char>) -> nat {
    (vstd::utf8::encode_utf8(s).len() as usize) as nat
}

/// The plain listing so far: its text and the width of its last line.
pub struct Flow {
    pub text: Seq<char>,
    pub width: nat,
}

/// The plain listing of `entries`: names separated by two spaces, with a
/// line feed before a name that would take the line beyond `LINE_WIDTH`.
pub open spec fn flow(entries: Seq<EntryView>) -> Flow
    decreases entries.len(),
{
    if entries.len() == 0 {
        Flow { text: Seq::empty(), width: 0 }
    } else {
        let before = flow(entries.drop_last());
        let name = display_name(entries.last());
        let started = if before.width + byte_len(name) + 2 > LINE_WIDTH && before.width > 0 {
            Flow { text: before.text + "\n"@, width: 0 }
        } else {
            before
        };
        let spaced = if started.width > 0 {
            Flow { text: started.text + "  "@, width: started.width + 2 }
        } else {
            started
        };
        Flow { text: spaced.text + name, width: spaced.width + byte_len(name) }
    }
}

/// What `ls` prints for the reply to its request.
pub open spec fn listing_text(
    path: Seq<char>,
    details: bool,
    hidden: bool,
    reply: Result<Seq<EntryView>, SysError>,
) -> Seq<char> {
    match reply {
        Err(e) => failure_text("ls"@, path, error_text(e)),
        Ok(entries) => {
            let shown = sorted(kept(entries, ls_rule(hidden)), true);
            if shown.len() == 0 {
                "(diretorio vazio)\n"@
            } else if details {
                LS_HEADER@ + detail_rows(shown)
            } else {
                flow(shown).text + "\n"@
            }
        },
    }
}

/// The entries that `rule` keeps.
pub fn keep(entries: Vec<DirEntry>, rule: Filter) -> (out: Vec<DirEntry>)
    ensures
        entry_views(out@) == kept(entry_views(entries@), rule),
{
    let mut rest = entries;
    let mut out: Vec<DirEntry> = Vec::new();
    let ghost all = entry_views(entries@);
    let ghost mut seen: int = 0;
    proof {
        assert(all.take(0) =~= Seq::<EntryView>::empty());
        assert(entry_views(out@) =~= kept(all.take(0), rule));
        assert(all.skip(0) =~= all);
    }
    while rest.len() > 0
        invariant
            0 <= seen <= all.len(),
            entry_views(rest@) == all.skip(seen),
            entry_views(out@) == kept(all.take(seen), rule),
        decreases rest.len(),
    {
        let ghost before_rest = entry_views(rest@);
        let ghost old_rest = rest@;
        let ghost old_out = entry_views(out@);
        proof {
            assert(before_rest.len() == rest@.len());
            assert(seen < all.len());
        }
        let e = rest.remove(0);
        proof {
            assert(e@ == before_rest[0]);
            assert forall|k: int| 0 <= k < rest@.len() implies entry_views(rest@)[k] == all.skip(
                seen + 1,
            )[k] by {
                assert(rest@[k] == old_rest[k + 1]);
                assert(before_rest[k + 1] == old_rest[k + 1]@);
            }
            assert(entry_views(rest@) =~= all.skip(seen + 1));
            assert(all.take(seen + 1).drop_last() =~= all.take(seen));
            assert(all.take(seen + 1).last() == e@);
        }
        let name = to_chars(e.name.as_str());
        let wanted = match rule {
            Filter::All => true,
            Filter::Visible => !(name.len() > 0 && name[0] == '.'),
            Filter::Named => !spells(&name, ".") && !spells(&name, ".."),
        };
        if wanted {
            out.push(e);
            proof {
                assert(entry_views(out@) =~= old_out.push(e@));
            }
        }
        proof {
            seen = seen + 1;
        }
    }
    proof {
        assert(all.take(all.len() as int) =~= all);
    }
    out
}

fn shown_name(e: &DirEntry) -> (name: String)
    ensures
        name@ == display_name(e@),
{
    if e.is_dir {
        let mut s = String::from_str("[");
        s.append(e.name.as_str());
        s.append("]");
        s
    } else {
        e.name.clone()
    }
}

fn detail_text(entries: &Vec<DirEntry>) -> (text: String)
    ensures
        text@ == LS_HEADER@ + detail_rows(entry_views(entries@)),
{
    let mut text = String::from_str(LS_HEADER);
    let ghost all = entry_views(entries@);
    let mut i: usize = 0;
    proof {
        assert(all.take(0) =~= Seq::<EntryView>::empty());
        assert(text@ =~= LS_HEADER@ + detail_rows(all.take(0)));
    }
    while i < entries.len()
        invariant
            i <= entries.len(),
            all == entry_views(entries@),
            text@ == LS_HEADER@ + detail_rows(all.take(i as int)),
        decreases entries.len() - i,
    {
        let e = &entries[i];
        if e.is_dir {
            text.append("DIR ");
        } else {
            text.append("FILE");
        }
        text.append("         -  ");
        text.append(shown_name(e).as_str());
        text.append("\n");
        proof {
            assert(all.take(i + 1).drop_last() =~= all.take(i as int));
            assert(all.take(i + 1).last() == e@);
            assert(text@ =~= LS_HEADER@ + detail_rows(all.take(i + 1)));
        }
        i += 1;
    }
    proof {
        assert(all.take(all.len() as int) =~= all);
    }
    text
}

fn flow_text(entries: &Vec<DirEntry>) -> (text: String)
    ensures
        text@ == flow(entry_views(entries@)).text,
{
    let mut text = String::new();
    // the width of the last line, as far as a usize counts
    let mut width: usize = 0;
    let ghost all = entry_views(entries@);
    let mut i: usize = 0;
    proof {
        assert(all.take(0) =~= Seq::<EntryView>::empty());
    }
    while i < entries.len()
        invariant
            i <= entries.len(),
            all == entry_views(entries@),
            text@ == flow(all.take(i as int)).text,
            width == if flow(all.take(i as int)).width <= usize::MAX {
                flow(all.take(i as int)).width
            } else {
                usize::MAX as nat
            },
        decreases entries.len() - i,
    {
        let name = shown_name(&entries[i]);
        let len = name.as_str().len();
        proof {
            assert(all.take(i + 1).drop_last() =~= all.take(i as int));
            assert(all.take(i + 1).last() == entries@[i as int]@);
            assert(len == byte_len(name@));
        }
        if width.saturating_add(len).saturating_add(2) > LINE_WIDTH && width > 0 {
            text.append("\n");
            width = 0;
        }
        if width > 0 {
            text.append("  ");
            width = width.saturating_add(2);
        }
        text.append(name.as_str());
        width = width.saturating_add(len);
        i += 1;
    }
    proof {
        assert(all.take(all.len() as int) =~= all);
    }
    text
}

/// `ls`, once the directory has answered: the entries in listing order,
/// directories first; an error where it could not be opened.
pub fn ls_listing(
    output: &mut TerminalState,
    path: String,
    details: bool,
    hidden: bool,
    reply: Result<Vec<DirEntry>, SysError>,
) -> (step: Step)
    requires
        old(output).wf(),
    ensures
        final(output)@ == old(output)@.write_str(
            listing_text(
                path@,
                details,
                hidden,
                match reply {
                    Ok(entries) => Ok(entry_views(entries@)),
                    Err(e) => Err(e),
                },
            ),
        ),
        final(output).wf(),
        final(output)@.same_size(old(output)@),
        step@ == done(),
{
    match reply {
        Err(e) => {
            report(output, "ls", path.as_str(), error_to_str(e));
        },
        Ok(entries) => {
            let rule = if hidden {
                Filter::All
            } else {
                Filter::Visible
            };
            let shown = sort_entries(keep(entries, rule), true);
            if shown.len() == 0 {
                output.write_str("(diretorio vazio)\n");
            } else if details {
                let text = detail_text(&shown);
                output.write_str(text.as_str());
            } else {
                let mut text = flow_text(&shown);
                text.append("\n");
                output.write_str(text.as_str());
            }
        },
    }
    Step::Done(CommandResult::Continue)
}

// ---------------------------------------------------------------- cd

/// The directory that `cd` changes to: its first argument, or `/`.
pub open spec fn cd_target(cwd: Seq<char>, args: Seq<Seq<char>>) -> Seq<char> {
    resolve(
        cwd,
        if args.len() > 0 {
            args[0]
        } else {
            "/"@
        },
    )
}

/// `cd`: resolves the target and asks whether it exists.
pub fn cmd_cd(output: &mut TerminalState, ctx: &mut ShellContext, args: &[&str]) -> (step: Step)
    requires
        old(output).wf(),
    ensures
        final(output)@ == old(output)@,
        final(output).wf(),
        final(output)@.same_size(old(output)@),
        final(ctx)@ == old(ctx)@,
        step@ == StepView::Wait(TaskView::CdExists(cd_target(old(ctx)@.cwd, str_texts(args@)))),
        step@->Wait_0.wf(),
{
    let target = if args.len() > 0 {
        resolve_path(ctx.cwd(), args[0])
    } else {
        resolve_path(ctx.cwd(), "/")
    };
    Step::Wait(Task::CdExists(target))
}

/// `cd`, once it is known whether the target exists: a report if not,
/// else the question whether it is a directory.
pub fn cd_exists(output: &mut TerminalState, path: String, exists: bool) -> (step: Step)
    requires
        old(output).wf(),
    ensures
        final(output).wf(),
        final(output)@.same_size(old(output)@),
        exists ==> final(output)@ == old(output)@ && step@ == StepView::Wait(
            TaskView::CdIsDir(path@),
        ),
        !exists ==> final(output)@ == old(output)@.write_str(
            failure_text("cd"@, path@, "Nao existe"@),
        ) && step@ == done(),
{
    if exists {
        Step::Wait(Task::CdIsDir(path))
    } else {
        report(output, "cd", path.as_str(), "Nao existe");
        Step::Done(CommandResult::Continue)
    }
}

/// `cd`, once it is known whether the target is a directory: a report
/// if not, else the request to enter it.
pub fn cd_is_dir(output: &mut TerminalState, path: String, is_dir: bool) -> (step: Step)
    requires
        old(output).wf(),
    ensures
        final(output).wf(),
        final(output)@.same_size(old(output)@),
        is_dir ==> final(output)@ == old(output)@ && step@ == StepView::Wait(
            TaskView::CdEnter(path@),
        ),
        !is_dir ==> final(output)@ == old(output)@.write_str(
            failure_text("cd"@, path@, "Nao e um diretorio"@),
        ) && step@ == done(),
{
    if is_dir {
        Step::Wait(Task::CdEnter(path))
    } else {
        report(output, "cd", path.as_str(), "Nao e um diretorio");
        Step::Done(CommandResult::Continue)
    }
}

/// `cd`, once the system has changed directory or refused: the target
/// becomes the working directory, or the refusal is reported and the
/// working directory stays.
pub fn cd_entered(
    output: &mut TerminalState,
    ctx: &mut ShellContext,
    path: String,
    result: Result<(), SysError>,
) -> (step: Step)
    requires
        old(output).wf(),
        is_normalized(path@),
    ensures
        final(output).wf(),
        final(output)@.same_size(old(output)@),
        step@ == done(),
        match result {
            Ok(_) => final(output)@ == old(output)@ && final(ctx)@ == (ContextView {
                cwd: path@,
                ..old(ctx)@
            }),
            Err(e) => final(output)@ == old(output)@.write_str(
                failure_text("cd"@, path@, error_text(e)),
            ) && final(ctx)@ == old(ctx)@,
        },
{
    match result {
        Ok(_) => {
            ctx.set_cwd(path.as_str());
        },
        Err(e) => {
            report(output, "cd", path.as_str(), error_to_str(e));
        },
    }
    Step::Done(CommandResult::Continue)
}

// --------------------------------------------------------------- pwd

/// `pwd`: asks the system for the working directory.
pub fn cmd_pwd(output: &mut TerminalState, ctx: &ShellContext) -> (step: Step)
    requires
        old(output).wf(),
    ensures
        final(output)@ == old(output)@,
        final(output).wf(),
        final(output)@.same_size(old(output)@),
        step@ == StepView::Wait(TaskView::Pwd),
{
    Step::Wait(Task::Pwd)
}

/// `pwd`, once the system has answered: its answer, or the shell's own
/// working directory where it has none.
pub fn pwd_reply(output: &mut TerminalState, ctx: &ShellContext, reply: Result<String, SysError>) -> (step:
    Step)
    requires
        old(output).wf(),
    ensures
        final(output)@ == old(output)@.write_line(
            match reply {
                Ok(cwd) => cwd@,
                Err(_) => ctx@.cwd,
            },
        ),
        final(output).wf(),
        final(output)@.same_size(old(output)@),
        step@ == done(),
{
    match reply {
        Ok(cwd) => output.write_line(cwd.as_str()),
        Err(_) => output.write_line(ctx.cwd()),
    }
    Step::Done(CommandResult::Continue)
}

// --------------------------------------------------------------- cat

/// Each of `args` resolved against `cwd`.
pub open spec fn resolve_all(cwd: Seq<char>, args: Seq<Seq<char>>) -> Seq<Seq<char>> {
    Seq::new(args.len(), |i: int| resolve(cwd, args[i]))
}

fn resolve_args(ctx: &ShellContext, args: &[&str]) -> (paths: Vec<String>)
    ensures
        texts(paths@) == resolve_all(ctx@.cwd, str_texts(args@)),
{
    let mut paths: Vec<String> = Vec::new();
    let mut i: usize = 0;
    while i < args.len()
        invariant
            i <= args.len(),
            paths@.len() == i,
            forall|k: int| 0 <= k < i ==> (#[trigger] paths@[k])@ == resolve(ctx@.cwd, args@[k]@),
        decreases args.len() - i,
    {
        paths.push(resolve_path(ctx.cwd(), args[i]));
        i += 1;
    }
    proof {
        assert(texts(paths@) =~= resolve_all(ctx@.cwd, str_texts(args@)));
    }
    paths
}

/// Where `cat` goes after the file `paths[at]`: to the next file, or to
/// its end.
pub open spec fn cat_next(paths: Seq<Seq<char>>, at: nat) -> StepView {
    if at + 1 < paths.len() {
        StepView::Wait(TaskView::CatOpen { paths, at: at + 1 })
    } else {
        done()
    }
}

fn cat_advance(paths: Vec<String>, at: usize) -> (step: Step)
    requires
        at < paths.len(),
    ensures
        step@ == cat_next(texts(paths@), at as nat),
        step@ matches StepView::Wait(t) ==> t.wf(),
{
    if at + 1 < paths.len() {
        Step::Wait(Task::CatOpen { paths, at: at + 1 })
    } else {
        Step::Done(CommandResult::Continue)
    }
}

/// `cat`: the usage without arguments, else the request to open the
/// first file.
pub fn cmd_cat(output: &mut TerminalState, ctx: &mut ShellContext, args: &[&str]) -> (step: Step)
    requires
        old(output).wf(),
    ensures
        final(output).wf(),
        final(output)@.same_size(old(output)@),
        final(ctx)@ == old(ctx)@,
        args@.len() == 0 ==> final(output)@ == old(output)@.write_str(CAT_USAGE@) && step@ == done(),
        args@.len() > 0 ==> final(output)@ == old(output)@ && step@ == StepView::Wait(
            TaskView::CatOpen { paths: resolve_all(old(ctx)@.cwd, str_texts(args@)), at: 0 },
        ),
        step@ matches StepView::Wait(t) ==> t.wf(),
{
    if args.len() == 0 {
        output.write_str(CAT_USAGE);
        Step::Done(CommandResult::Continue)
    } else {
        let paths = resolve_args(ctx, args);
        Step::Wait(Task::CatOpen { paths, at: 0 })
    }
}

/// `cat`, once the file `paths[at]` is open or refused: the request for
/// its first bytes, or a report and the next file.
pub fn cat_opened(
    output: &mut TerminalState,
    paths: Vec<String>,
    at: usize,
    result: Result<(), SysError>,
) -> (step: Step)
    requires
        old(output).wf(),
        at < paths.len(),
    ensures
        final(output).wf(),
        final(output)@.same_size(old(output)@),
        match result {
            Ok(_) => final(output)@ == old(output)@ && step@ == StepView::Wait(
                TaskView::CatRead { paths: texts(paths@), at: at as nat },
            ),
            Err(e) => final(output)@ == old(output)@.write_str(
                failure_text("cat"@, texts(paths@)[at as int], error_text(e)),
            ) && step@ == cat_next(texts(paths@), at as nat),
        },
        step@ matches StepView::Wait(t) ==> t.wf(),
{
    match result {
        Ok(_) => Step::Wait(Task::CatRead { paths, at }),
        Err(e) => {
            report(output, "cat", paths[at].as_str(), error_to_str(e));
            cat_advance(paths, at)
        },
    }
}

/// Whether `cat` shows `c`: line feeds, tabs and everything from the
/// space on; other control characters are dropped.
pub open spec fn is_shown(c: char) -> bool {
    c == '\n' || c >= ' ' || c == '\t'
}

/// The characters of `chars` that `cat` shows.
pub open spec fn shown(chars: Seq<char>) -> Seq<char>
    decreases chars.len(),
{
    if chars.len() == 0 {
        Seq::empty()
    } else if is_shown(chars.last()) {
        shown(chars.drop_last()).push(chars.last())
    } else {
        shown(chars.drop_last())
    }
}

fn shown_text(text: &str) -> (out: String)
    ensures
        out@ == shown(text@),
{
    let mut out = String::new();
    for c in it: text.chars()
        invariant
            it.seq() == text@,
            out@ == shown(text@.take(it.index() as int)),
    {
        proof {
            assert(text@.take(it.index() + 1).drop_last() =~= text@.take(it.index() as int));
        }
        if c == '\n' || c >= ' ' || c == '\t' {
            push_char(&mut out, c);
        }
    }
    proof {
        assert(text@.take(text@.len() as int) =~= text@);
    }
    out
}

/// What `cat` prints for one reply to a read of `path`.
pub open spec fn chunk_text(path: Seq<char>, reply: Result<Seq<u8>, SysError>) -> Seq<char> {
    match reply {
        Ok(bytes) => if bytes.len() == 0 {
            Seq::empty()
        } else if vstd::utf8::valid_utf8(bytes) {
            shown(vstd::utf8::decode_utf8(bytes))
        } else {
            BINARY_NOTICE@
        },
        Err(e) => failure_text("cat"@, path, error_text(e)),
    }
}

/// Whether `cat` reads on after a reply: only after bytes that are
/// UTF-8.
pub open spec fn reads_on(reply: Result<Seq<u8>, SysError>) -> bool {
    reply matches Ok(bytes) && bytes.len() > 0 && vstd::utf8::valid_utf8(bytes)
}

/// `cat`, once a read of `paths[at]` has answered. Text is shown and
/// the file read on; the end of the file, bytes that are no text, and an
/// error each end the file, the last two with a line on the terminal.
pub fn cat_chunk(
    output: &mut TerminalState,
    paths: Vec<String>,
    at: usize,
    reply: Result<Vec<u8>, SysError>,
) -> (step: Step)
    requires
        old(output).wf(),
        at < paths.len(),
    ensures
        final(output).wf(),
        final(output)@.same_size(old(output)@),
        final(output)@ == old(output)@.write_str(
            chunk_text(
                texts(paths@)[at as int],
                match reply {
                    Ok(bytes) => Ok(bytes@),
                    Err(e) => Err(e),
                },
            ),
        ),
        step@ == if reads_on(
            match reply {
                Ok(bytes) => Ok(bytes@),
                Err(e) => Err(e),
            },
        ) {
            StepView::Wait(TaskView::CatRead { paths: texts(paths@), at: at as nat })
        } else {
            cat_next(texts(paths@), at as nat)
        },
        step@ matches StepView::Wait(t) ==> t.wf(),
{
    match reply {
        Ok(bytes) => {
            if bytes.len() == 0 {
                cat_advance(paths, at)
            } else {
                match utf8_text(bytes.as_slice()) {
                    Some(text) => {
                        let visible = shown_text(text);
                        output.write_str(visible.as_str());
                        Step::Wait(Task::CatRead { paths, at })
                    },
                    None => {
                        output.write_str(BINARY_NOTICE);
                        cat_advance(paths, at)
                    },
                }
            }
        },
        Err(e) => {
            report(output, "cat", paths[at].as_str(), error_to_str(e));
            cat_advance(paths, at)
        },
    }
}

// -------------------------------------------------------------- stat

/// The name of a file type.
pub open spec fn kind_name(file_type: u8) -> Seq<char> {
    if file_type == 1 {
        "arquivo regular"@
    } else if file_type == 2 {
        "diretorio"@
    } else if file_type == 3 {
        "link simbolico"@
    } else {
        "desconhecido"@
    }
}

/// What `stat` prints for the reply about `path`.
pub open spec fn stat_text(path: Seq<char>, reply: Result<FileStat, SysError>) -> Seq<char> {
    match reply {
        Ok(info) => "  Arquivo: "@ + path + "\n     Tipo: "@ + kind_name(info.file_type)
            + "\n  Tamanho: "@ + decimal(info.size as nat) + " bytes\n     Mode: "@ + decimal(
            info.mode as nat,
        ) + "\n"@,
        Err(e) => failure_text("stat"@, path, error_text(e)),
    }
}

/// Where `stat` goes after `paths[at]`.
pub open spec fn stat_next(paths: Seq<Seq<char>>, at: nat) -> StepView {
    if at + 1 < paths.len() {
        StepView::Wait(TaskView::Stat { paths, at: at + 1 })
    } else {
        done()
    }
}

/// `stat`: a notice without arguments, else the question about the
/// first path.
pub fn cmd_stat(output: &mut TerminalState, ctx: &mut ShellContext, args: &[&str]) -> (step: Step)
    requires
        old(output).wf(),
    ensures
        final(output).wf(),
        final(output)@.same_size(old(output)@),
        final(ctx)@ == old(ctx)@,
        args@.len() == 0 ==> final(output)@ == old(output)@.write_str("stat: falta operando\n"@)
            && step@ == done(),
        args@.len() > 0 ==> final(output)@ == old(output)@ && step@ == StepView::Wait(
            TaskView::Stat { paths: resolve_all(old(ctx)@.cwd, str_texts(args@)), at: 0 },
        ),
        step@ matches StepView::Wait(t) ==> t.wf(),
{
    if args.len() == 0 {
        output.write_str("stat: falta operando\n");
        Step::Done(CommandResult::Continue)
    } else {
        let paths = resolve_args(ctx, args);
        Step::Wait(Task::Stat { paths, at: 0 })
    }
}

/// `stat`, once the system has answered about `paths[at]`: type, size
/// and mode, or the error; then the next path.
pub fn stat_reply(
    output: &mut TerminalState,
    paths: Vec<String>,
    at: usize,
    reply: Result<FileStat, SysError>,
) -> (step: Step)
    requires
        old(output).wf(),
        at < paths.len(),
    ensures
        final(output).wf(),
        final(output)@.same_size(old(output)@),
        final(output)@ == old(output)@.write_str(stat_text(texts(paths@)[at as int], reply)),
        step@ == stat_next(texts(paths@), at as nat),
        step@ matches StepView::Wait(t) ==> t.wf(),
{
    match reply {
        Ok(info) => {
            let kind = if info.file_type == 1 {
                "arquivo regular"
            } else if info.file_type == 2 {
                "diretorio"
            } else if info.file_type == 3 {
                "link simbolico"
            } else {
                "desconhecido"
            };
            let mut msg = String::from_str("  Arquivo: ");
            msg.append(paths[at].as_str());
            msg.append("\n     Tipo: ");
            msg.append(kind);
            msg.append("\n  Tamanho: ");
            msg.append(format_number(info.size).as_str());
            msg.append(" bytes\n     Mode: ");
            msg.append(format_number(info.mode as u64).as_str());
            msg.append("\n");
            output.write_str(msg.as_str());
        },
        Err(e) => {
            report(output, "stat", paths[at].as_str(), error_to_str(e));
        },
    }
    if at + 1 < paths.len() {
        Step::Wait(Task::Stat { paths, at: at + 1 })
    } else {
        Step::Done(CommandResult::Continue)
    }
}

// ------------------------------------------------------------- stubs

/// `mkdir`: a notice, the file system is read-only.
pub fn cmd_mkdir(output: &mut TerminalState, _ctx: &mut ShellContext, _args: &[&str])
    requires
        old(output).wf(),
    ensures
        final(output)@ == old(output)@.write_str(read_only_text("mkdir"@)),
        final(output).wf(),
        final(output)@.same_size(old(output)@),
        final(_ctx)@ == old(_ctx)@,
{
    read_only(output, "mkdir");
}

/// `rmdir`: a notice, the file system is read-only.
pub fn cmd_rmdir(output: &mut TerminalState, _ctx: &mut ShellContext, _args: &[&str])
    requires
        old(output).wf(),
    ensures
        final(output)@ == old(output)@.write_str(read_only_text("rmdir"@)),
        final(output).wf(),
        final(output)@.same_size(old(output)@),
        final(_ctx)@ == old(_ctx)@,
{
    read_only(output, "rmdir");
}

/// `rm`: a notice, the file system is read-only.
pub fn cmd_rm(output: &mut TerminalState, _ctx: &mut ShellContext, _args: &[&str])
    requires
        old(output).wf(),
    ensures
        final(output)@ == old(output)@.write_str(read_only_text("rm"@)),
        final(output).wf(),
        final(output)@.same_size(old(output)@),
        final(_ctx)@ == old(_ctx)@,
{
    read_only(output, "rm");
}

/// `cp`: a notice, the file system is read-only.
pub fn cmd_cp(output: &mut TerminalState, _ctx: &mut ShellContext, _args: &[&str])
    requires
        old(output).wf(),
    ensures
        final(output)@ == old(output)@.write_str(read_only_text("cp"@)),
        final(output).wf(),
        final(output)@.same_size(old(output)@),
        final(_ctx)@ == old(_ctx)@,
{
    read_only(output, "cp");
}

/// `mv`: a notice, the file system is read-only.
pub fn cmd_mv(output: &mut TerminalState, _ctx: &mut ShellContext, _args: &[&str])
    requires
        old(output).wf(),
    ensures
        final(output)@ == old(output)@.write_str(read_only_text("mv"@)),
        final(output).wf(),
        final(output)@.same_size(old(output)@),
        final(_ctx)@ == old(_ctx)@,
{
    read_only(output, "mv");
}

} // verus!

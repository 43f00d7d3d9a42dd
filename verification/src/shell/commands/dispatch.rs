//! From a command line to the command that runs it, and from a reply
//! of the operating system back into the command that waits for it.

use crate::shell::commands::builtin::{
    cmd_echo, cmd_help, cmd_version, help_text, spaced, VERSION_TEXT,
};
use crate::shell::commands::fs::{
    cat_chunk, cat_next, cat_opened, cd_entered, cd_exists, cd_is_dir, cd_target, chunk_text,
    cmd_cat, cmd_cd, cmd_cp, cmd_ls, cmd_mkdir, cmd_mv, cmd_pwd, cmd_rm, cmd_rmdir, cmd_stat,
    error_text, failure_text, listing_text, ls_listing, ls_start_step, ls_start_text, pwd_reply,
    read_only_text, reads_on, resolve_all, stat_next, stat_reply, stat_text, CAT_USAGE,
};
use crate::shell::commands::system::{
    cmd_jobs, cmd_kill, cmd_meminfo, cmd_ps, cmd_sysinfo, cmd_top, cmd_uptime, kill_text, ps_text,
    sysinfo_text, sysinfo_with_clock, uptime_text, uptime_with_clock, JOBS_TEXT, MEMINFO_TEXT,
    SYSINFO_HEAD, TOP_TEXT,
};
use crate::shell::commands::tree::{
    cmd_tree, tree_entered, tree_options, tree_reply, tree_start_step, tree_target,
};
use crate::shell::commands::types::{
    done, ReplyView, ResultView, Step, StepView, SysReply, TaskView,
};
use crate::shell::commands::{CommandResult, Task};
use crate::shell::context::{ContextView, ShellContext};
use crate::shell::parser::{parse, parse_chars, trim, trimmed};
use crate::state::terminal::{TerminalState, TerminalView};
use crate::text::{spells, str_texts, texts, to_chars};
use vstd::prelude::*;

verus! {

/// The error of a reply that does not answer the request of the task.
pub const UNEXPECTED_REPLY: &'static str = "resposta inesperada do sistema";

/// What a command has done when it returns: the terminal, the shell
/// context, and where the command stands.
pub struct Effect {
    pub output: TerminalView,
    pub ctx: ContextView,
    pub step: StepView,
}

/// A command that printed `text` and ended.
pub open spec fn said(out: TerminalView, ctx: ContextView, text: Seq<char>) -> Effect {
    Effect { output: out.write_str(text), ctx, step: done() }
}

/// What the shell prints for a name that is no command.
pub open spec fn unknown_text(cmd: Seq<char>) -> Seq<char> {
    "Comando nao encontrado: "@ + cmd + "\nDigite 'help' para ver comandos disponiveis.\n"@
}

/// The effect of the command `cmd` with the arguments `args`.
pub open spec fn run(cmd: Seq<char>, args: Seq<Seq<char>>, out: TerminalView, ctx: ContextView) -> Effect {
    if cmd == "help"@ {
        said(out, ctx, help_text(args))
    } else if cmd == "clear"@ {
        Effect { output: out, ctx, step: StepView::Done(ResultView::Clear) }
    } else if cmd == "exit"@ || cmd == "quit"@ {
        Effect { output: out, ctx, step: StepView::Done(ResultView::Exit) }
    } else if cmd == "echo"@ {
        Effect { output: out.write_line(spaced(args)), ctx, step: done() }
    } else if cmd == "ver"@ || cmd == "version"@ {
        said(out, ctx, VERSION_TEXT@)
    } else if cmd == "ls"@ || cmd == "dir"@ {
        Effect {
            output: out.write_str(ls_start_text(args)),
            ctx,
            step: ls_start_step(ctx.cwd, args),
        }
    } else if cmd == "cd"@ {
        Effect { output: out, ctx, step: StepView::Wait(TaskView::CdExists(cd_target(ctx.cwd, args))) }
    } else if cmd == "pwd"@ {
        Effect { output: out, ctx, step: StepView::Wait(TaskView::Pwd) }
    } else if cmd == "cat"@ || cmd == "type"@ {
        if args.len() == 0 {
            said(out, ctx, CAT_USAGE@)
        } else {
            Effect {
                output: out,
                ctx,
                step: StepView::Wait(TaskView::CatOpen { paths: resolve_all(ctx.cwd, args), at: 0 }),
            }
        }
    } else if cmd == "tree"@ {
        Effect {
            output: out.write_line(tree_target(ctx.cwd, tree_options(args))),
            ctx,
            step: tree_start_step(ctx.cwd, args),
        }
    } else if cmd == "mkdir"@ {
        said(out, ctx, read_only_text("mkdir"@))
    } else if cmd == "rmdir"@ {
        said(out, ctx, read_only_text("rmdir"@))
    } else if cmd == "rm"@ || cmd == "del"@ {
        said(out, ctx, read_only_text("rm"@))
    } else if cmd == "cp"@ || cmd == "copy"@ {
        said(out, ctx, read_only_text("cp"@))
    } else if cmd == "mv"@ || cmd == "move"@ || cmd == "rename"@ {
        said(out, ctx, read_only_text("mv"@))
    } else if cmd == "stat"@ {
        if args.len() == 0 {
            said(out, ctx, "stat: falta operando\n"@)
        } else {
            Effect {
                output: out,
                ctx,
                step: StepView::Wait(TaskView::Stat { paths: resolve_all(ctx.cwd, args), at: 0 }),
            }
        }
    } else if cmd == "uptime"@ {
        Effect { output: out, ctx, step: StepView::Wait(TaskView::Uptime) }
    } else if cmd == "ps"@ {
        said(out, ctx, ps_text(args))
    } else if cmd == "kill"@ {
        said(out, ctx, kill_text(args))
    } else if cmd == "top"@ {
        said(out, ctx, TOP_TEXT@)
    } else if cmd == "jobs"@ {
        said(out, ctx, JOBS_TEXT@)
    } else if cmd == "sysinfo"@ {
        Effect { output: out.write_str(SYSINFO_HEAD@), ctx, step: StepView::Wait(TaskView::Sysinfo) }
    } else if cmd == "meminfo"@ {
        said(out, ctx, MEMINFO_TEXT@)
    } else {
        said(out, ctx, unknown_text(cmd))
    }
}

/// The effect of the command line `line`: nothing for a blank line,
/// else the first argument names the command and the others are passed
/// to it as they are.
pub open spec fn execute(line: Seq<char>, out: TerminalView, ctx: ContextView) -> Effect {
    let args = parse(trim(line));
    if args.len() == 0 {
        Effect { output: out, ctx, step: done() }
    } else {
        run(args[0], args.skip(1), out, ctx)
    }
}

/// Runs a command line, up to its end or to its first request to the
/// operating system. A name that is no command is answered on the
/// terminal and is no error.
pub fn execute_command(cmd_line: &str, ctx: &mut ShellContext, output: &mut TerminalState) -> (step:
    Step)
    requires
        old(output).wf(),
        old(ctx).wf(),
    ensures
        (Effect { output: final(output)@, ctx: final(ctx)@, step: step@ }) == execute(
            cmd_line@,
            old(output)@,
            old(ctx)@,
        ),
        final(output).wf(),
        final(output)@.same_size(old(output)@),
        final(ctx).wf(),
        step@ matches StepView::Wait(t) ==> t.wf(),
{
    let line = trimmed(cmd_line);
    let words = parse_chars(&line);
    if words.len() == 0 {
        return Step::Done(CommandResult::Continue);
    }
    let mut rest: Vec<&str> = Vec::new();
    let mut i: usize = 1;
    while i < words.len()
        invariant
            1 <= i <= words.len(),
            rest@.len() == i - 1,
            forall|k: int| 0 <= k < rest@.len() ==> (#[trigger] rest@[k])@ == words@[k + 1]@,
        decreases words.len() - i,
    {
        rest.push(words[i].as_str());
        i += 1;
    }
    let args = rest.as_slice();
    proof {
        assert(str_texts(args@) =~= texts(words@).skip(1));
        assert(texts(words@)[0] == words@[0]@);
    }
    let ghost cwd = ctx@.cwd;
    let name = to_chars(words[0].as_str());
    if spells(&name, "help") {
        cmd_help(output, args);
        Step::Done(CommandResult::Continue)
    } else if spells(&name, "clear") {
        Step::Done(CommandResult::Clear)
    } else if spells(&name, "exit") || spells(&name, "quit") {
        Step::Done(CommandResult::Exit)
    } else if spells(&name, "echo") {
        cmd_echo(output, args);
        Step::Done(CommandResult::Continue)
    } else if spells(&name, "ver") || spells(&name, "version") {
        cmd_version(output);
        Step::Done(CommandResult::Continue)
    } else if spells(&name, "ls") || spells(&name, "dir") {
        cmd_ls(output, ctx, args)
    } else if spells(&name, "cd") {
        cmd_cd(output, ctx, args)
    } else if spells(&name, "pwd") {
        cmd_pwd(output, ctx)
    } else if spells(&name, "cat") || spells(&name, "type") {
        cmd_cat(output, ctx, args)
    } else if spells(&name, "tree") {
        cmd_tree(output, ctx, args)
    } else if spells(&name, "mkdir") {
        cmd_mkdir(output, ctx, args);
        Step::Done(CommandResult::Continue)
    } else if spells(&name, "rmdir") {
        cmd_rmdir(output, ctx, args);
        Step::Done(CommandResult::Continue)
    } else if spells(&name, "rm") || spells(&name, "del") {
        cmd_rm(output, ctx, args);
        Step::Done(CommandResult::Continue)
    } else if spells(&name, "cp") || spells(&name, "copy") {
        cmd_cp(output, ctx, args);
        Step::Done(CommandResult::Continue)
    } else if spells(&name, "mv") || spells(&name, "move") || spells(&name, "rename") {
        cmd_mv(output, ctx, args);
        Step::Done(CommandResult::Continue)
    } else if spells(&name, "stat") {
        cmd_stat(output, ctx, args)
    } else if spells(&name, "uptime") {
        cmd_uptime(output)
    } else if spells(&name, "ps") {
        cmd_ps(output, args);
        Step::Done(CommandResult::Continue)
    } else if spells(&name, "kill") {
        cmd_kill(output, args);
        Step::Done(CommandResult::Continue)
    } else if spells(&name, "top") {
        cmd_top(output);
        Step::Done(CommandResult::Continue)
    } else if spells(&name, "jobs") {
        cmd_jobs(output);
        Step::Done(CommandResult::Continue)
    } else if spells(&name, "sysinfo") {
        cmd_sysinfo(output)
    } else if spells(&name, "meminfo") {
        cmd_meminfo(output);
        Step::Done(CommandResult::Continue)
    } else {
        let mut msg = String::from_str("Comando nao encontrado: ");
        msg.append(words[0].as_str());
        msg.append("\nDigite 'help' para ver comandos disponiveis.\n");
        output.write_str(msg.as_str());
        Step::Done(CommandResult::Continue)
    }
}

/// A command that fails because the reply does not answer its request.
pub open spec fn refused(out: TerminalView, ctx: ContextView) -> Effect {
    Effect { output: out, ctx, step: StepView::Done(ResultView::Error(UNEXPECTED_REPLY@)) }
}

/// The effect of the reply `reply` on the command that waits in `task`.
pub open spec fn resumed(task: TaskView, reply: ReplyView, out: TerminalView, ctx: ContextView) -> Effect {
    match (task, reply) {
        (TaskView::CdExists(path), ReplyView::Exists(exists)) => if exists {
            Effect { output: out, ctx, step: StepView::Wait(TaskView::CdIsDir(path)) }
        } else {
            said(out, ctx, failure_text("cd"@, path, "Nao existe"@))
        },
        (TaskView::CdIsDir(path), ReplyView::IsDir(is_dir)) => if is_dir {
            Effect { output: out, ctx, step: StepView::Wait(TaskView::CdEnter(path)) }
        } else {
            said(out, ctx, failure_text("cd"@, path, "Nao e um diretorio"@))
        },
        (TaskView::CdEnter(path), ReplyView::ChangeDir(result)) => match result {
            Ok(_) => Effect { output: out, ctx: ContextView { cwd: path, ..ctx }, step: done() },
            Err(e) => said(out, ctx, failure_text("cd"@, path, error_text(e))),
        },
        (TaskView::Pwd, ReplyView::CurrentDir(result)) => Effect {
            output: out.write_line(
                match result {
                    Ok(cwd) => cwd,
                    Err(_) => ctx.cwd,
                },
            ),
            ctx,
            step: done(),
        },
        (TaskView::Ls { path, details, hidden }, ReplyView::ReadDir(result)) => said(
            out,
            ctx,
            listing_text(path, details, hidden, result),
        ),
        (TaskView::CatOpen { paths, at }, ReplyView::OpenFile(result)) => match result {
            Ok(_) => Effect { output: out, ctx, step: StepView::Wait(TaskView::CatRead { paths, at }) },
            Err(e) => Effect {
                output: out.write_str(failure_text("cat"@, paths[at as int], error_text(e))),
                ctx,
                step: cat_next(paths, at),
            },
        },
        (TaskView::CatRead { paths, at }, ReplyView::ReadFile(result)) => Effect {
            output: out.write_str(chunk_text(paths[at as int], result)),
            ctx,
            step: if reads_on(result) {
                StepView::Wait(TaskView::CatRead { paths, at })
            } else {
                cat_next(paths, at)
            },
        },
        (TaskView::Stat { paths, at }, ReplyView::Stat(result)) => Effect {
            output: out.write_str(stat_text(paths[at as int], result)),
            ctx,
            step: stat_next(paths, at),
        },
        (TaskView::Tree { stack, path, prefix, max_depth }, ReplyView::ReadDir(result)) => {
            let went = tree_entered(out, stack, path, prefix, max_depth, result);
            Effect { output: went.output, ctx, step: went.step }
        },
        (TaskView::Uptime, ReplyView::Clock(result)) => said(out, ctx, uptime_text(result)),
        (TaskView::Sysinfo, ReplyView::Clock(result)) => said(out, ctx, sysinfo_text(result)),
        _ => refused(out, ctx),
    }
}

fn refuse() -> (step: Step)
    ensures
        step@ == StepView::Done(ResultView::Error(UNEXPECTED_REPLY@)),
{
    Step::Done(CommandResult::Error(String::from_str(UNEXPECTED_REPLY)))
}

/// Goes on with the command that waits in `task`, now that the
/// operating system has replied. A reply that does not answer the
/// request of the task ends the command with an error and changes
/// nothing.
pub fn resume(task: Task, reply: SysReply, ctx: &mut ShellContext, output: &mut TerminalState) -> (step:
    Step)
    requires
        old(output).wf(),
        old(ctx).wf(),
        task@.wf(),
    ensures
        (Effect { output: final(output)@, ctx: final(ctx)@, step: step@ }) == resumed(
            task@,
            reply@,
            old(output)@,
            old(ctx)@,
        ),
        final(output).wf(),
        final(output)@.same_size(old(output)@),
        final(ctx).wf(),
        step@ matches StepView::Wait(t) ==> t.wf(),
{
    match task {
        Task::CdExists(path) => match reply {
            SysReply::Exists(exists) => cd_exists(output, path, exists),
            _ => refuse(),
        },
        Task::CdIsDir(path) => match reply {
            SysReply::IsDir(is_dir) => cd_is_dir(output, path, is_dir),
            _ => refuse(),
        },
        Task::CdEnter(path) => match reply {
            SysReply::ChangeDir(result) => cd_entered(output, ctx, path, result),
            _ => refuse(),
        },
        Task::Pwd => match reply {
            SysReply::CurrentDir(result) => pwd_reply(output, ctx, result),
            _ => refuse(),
        },
        Task::Ls { path, details, hidden } => match reply {
            SysReply::ReadDir(result) => ls_listing(output, path, details, hidden, result),
            _ => refuse(),
        },
        Task::CatOpen { paths, at } => match reply {
            SysReply::OpenFile(result) => cat_opened(output, paths, at, result),
            _ => refuse(),
        },
        Task::CatRead { paths, at } => match reply {
            SysReply::ReadFile(result) => cat_chunk(output, paths, at, result),
            _ => refuse(),
        },
        Task::Stat { paths, at } => match reply {
            SysReply::Stat(result) => stat_reply(output, paths, at, result),
            _ => refuse(),
        },
        Task::Tree { stack, path, prefix, max_depth } => match reply {
            SysReply::ReadDir(result) => tree_reply(output, stack, path, prefix, max_depth, result),
            _ => refuse(),
        },
        Task::Uptime => match reply {
            SysReply::Clock(result) => uptime_with_clock(output, result),
            _ => refuse(),
        },
        Task::Sysinfo => match reply {
            SysReply::Clock(result) => sysinfo_with_clock(output, result),
            _ => refuse(),
        },
    }
}

} // verus!

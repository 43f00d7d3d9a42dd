//! Commands about the system: clock, processes and memory.

use crate::shell::commands::number::{decimal, format_number};
use crate::shell::commands::types::{done, Step, StepView, SysError, TaskView};
use crate::shell::commands::{CommandResult, Task};
use crate::state::terminal::TerminalState;
use crate::text::{spells, str_texts, to_chars};
use vstd::prelude::*;

verus! {

/// What `ps --json` prints.
pub const PS_JSON_TEXT: &'static str = "ps --json: Nao implementado
(Contrato futuro para integracao com ferramentas)
";

/// What `ps` prints.
pub const PS_TEXT: &'static str = "ps: Nao implementado
(Requer syscall de listagem de processos)

Formato futuro:
  PID  PPID  STATE  NAME
    1     0  R      supervisor
    2     1  R      firefly
    3     2  R      terminal
";

/// What `kill` prints without a process id.
pub const KILL_USAGE: &'static str = "kill: falta PID
Uso: kill <pid>
";

/// What `kill` prints with one.
pub const KILL_TEXT: &'static str = "kill: Nao implementado
(Requer syscall de sinais)
";

/// What `top` prints.
pub const TOP_TEXT: &'static str = "top: Nao implementado
(Requer syscall de estatisticas de processos)

Formato futuro:
  CPU: 12%  MEM: 45MB/256MB
  PID  CPU%  MEM%  NAME
    1   2%    5%  supervisor
    2   8%   15%  firefly
";

/// What `jobs` prints.
pub const JOBS_TEXT: &'static str = "jobs: Nao implementado
(Requer suporte a job control)
";

/// What `meminfo` prints.
pub const MEMINFO_TEXT: &'static str = "
=== Memory Info ===

meminfo: Nao implementado
(Requer syscall de estatisticas de memoria)

Formato futuro:
  Total:     256 MB
  Used:       45 MB
  Free:      211 MB
  Cached:     12 MB
  Buffers:     5 MB
";

/// What `sysinfo` prints before it reads the clock.
pub const SYSINFO_HEAD: &'static str = "
=== RedstoneOS System Info ===

  OS:        RedstoneOS v0.1.3
  Kernel:    Forge Microkernel
  Arch:      x86_64
  Shell:     Firefly Terminal v0.2.0

  Uptime:    ";

/// What `sysinfo` prints after the uptime.
pub const SYSINFO_TAIL: &'static str = "
(sysinfo completo requer syscall SYS_SYSINFO)
";

/// Whether one of `args` is `--json`.
pub open spec fn wants_json(args: Seq<Seq<char>>) -> bool {
    exists|i: int| 0 <= i < args.len() && args[i] == "--json"@
}

/// What `ps` prints.
pub open spec fn ps_text(args: Seq<Seq<char>>) -> Seq<char> {
    if wants_json(args) {
        PS_JSON_TEXT@
    } else {
        PS_TEXT@
    }
}

/// What `kill` prints.
pub open spec fn kill_text(args: Seq<Seq<char>>) -> Seq<char> {
    if args.len() == 0 {
        KILL_USAGE@
    } else {
        KILL_TEXT@
    }
}

/// The uptime line for a clock of `ticks` milliseconds: whole hours,
/// minutes and seconds.
pub open spec fn uptime_text(clock: Result<u64, SysError>) -> Seq<char> {
    match clock {
        Ok(ticks) => {
            let secs = (ticks / 1000) as nat;
            "Uptime: "@ + decimal(secs / 3600) + "h "@ + decimal((secs % 3600) / 60) + "m "@
                + decimal(secs % 60) + "s\n"@
        },
        Err(_) => "uptime: Nao foi possivel obter tempo\n"@,
    }
}

/// What `sysinfo` prints once it has the clock: the uptime in whole
/// seconds, then the closing note.
pub open spec fn sysinfo_text(clock: Result<u64, SysError>) -> Seq<char> {
    match clock {
        Ok(ticks) => decimal((ticks / 1000) as nat) + " segundos\n"@ + SYSINFO_TAIL@,
        Err(_) => "(desconhecido)\n"@ + SYSINFO_TAIL@,
    }
}

/// `uptime`: asks for the clock.
pub fn cmd_uptime(output: &mut TerminalState) -> (step: Step)
    requires
        old(output).wf(),
    ensures
        final(output)@ == old(output)@,
        final(output).wf(),
        final(output)@.same_size(old(output)@),
        step@ == StepView::Wait(TaskView::Uptime),
{
    Step::Wait(Task::Uptime)
}

/// `uptime`, once the clock has answered.
pub fn uptime_with_clock(output: &mut TerminalState, clock: Result<u64, SysError>) -> (step: Step)
    requires
        old(output).wf(),
    ensures
        final(output)@ == old(output)@.write_str(uptime_text(clock)),
        final(output).wf(),
        final(output)@.same_size(old(output)@),
        step@ == done(),
{
    match clock {
        Ok(ticks) => {
            let total_secs = ticks / 1000;
            let hours = total_secs / 3600;
            let mins = (total_secs % 3600) / 60;
            let secs = total_secs % 60;
            let mut line = String::from_str("Uptime: ");
            line.append(format_number(hours).as_str());
            line.append("h ");
            line.append(format_number(mins).as_str());
            line.append("m ");
            line.append(format_number(secs).as_str());
            line.append("s\n");
            output.write_str(line.as_str());
        },
        Err(_) => {
            output.write_str("uptime: Nao foi possivel obter tempo\n");
        },
    }
    Step::Done(CommandResult::Continue)
}

/// `ps`: a notice, the list of processes is not available.
pub fn cmd_ps(output: &mut TerminalState, args: &[&str])
    requires
        old(output).wf(),
    ensures
        final(output)@ == old(output)@.write_str(ps_text(str_texts(args@))),
        final(output).wf(),
        final(output)@.same_size(old(output)@),
{
    let mut json = false;
    let mut i: usize = 0;
    while i < args.len()
        invariant
            i <= args.len(),
            json == exists|k: int| 0 <= k < i && str_texts(args@)[k] == "--json"@,
        decreases args.len() - i,
    {
        let word = to_chars(args[i]);
        if spells(&word, "--json") {
            json = true;
            proof {
                assert(str_texts(args@)[i as int] == "--json"@);
            }
        }
        i += 1;
    }
    if json {
        output.write_str(PS_JSON_TEXT);
    } else {
        output.write_str(PS_TEXT);
    }
}

/// `kill`: a notice, or the usage when no process is named.
pub fn cmd_kill(output: &mut TerminalState, args: &[&str])
    requires
        old(output).wf(),
    ensures
        final(output)@ == old(output)@.write_str(kill_text(str_texts(args@))),
        final(output).wf(),
        final(output)@.same_size(old(output)@),
{
    if args.len() == 0 {
        output.write_str(KILL_USAGE);
    } else {
        output.write_str(KILL_TEXT);
    }
}

/// `top`: a notice.
pub fn cmd_top(output: &mut TerminalState)
    requires
        old(output).wf(),
    ensures
        final(output)@ == old(output)@.write_str(TOP_TEXT@),
        final(output).wf(),
        final(output)@.same_size(old(output)@),
{
    output.write_str(TOP_TEXT);
}

/// `jobs`: a notice.
pub fn cmd_jobs(output: &mut TerminalState)
    requires
        old(output).wf(),
    ensures
        final(output)@ == old(output)@.write_str(JOBS_TEXT@),
        final(output).wf(),
        final(output)@.same_size(old(output)@),
{
    output.write_str(JOBS_TEXT);
}

/// `sysinfo`: prints the fixed part and asks for the clock.
pub fn cmd_sysinfo(output: &mut TerminalState) -> (step: Step)
    requires
        old(output).wf(),
    ensures
        final(output)@ == old(output)@.write_str(SYSINFO_HEAD@),
        final(output).wf(),
        final(output)@.same_size(old(output)@),
        step@ == StepView::Wait(TaskView::Sysinfo),
{
    output.write_str(SYSINFO_HEAD);
    Step::Wait(Task::Sysinfo)
}

/// `sysinfo`, once the clock has answered.
pub fn sysinfo_with_clock(output: &mut TerminalState, clock: Result<u64, SysError>) -> (step: Step)
    requires
        old(output).wf(),
    ensures
        final(output)@ == old(output)@.write_str(sysinfo_text(clock)),
        final(output).wf(),
        final(output)@.same_size(old(output)@),
        step@ == done(),
{
    let mut text = String::new();
    match clock {
        Ok(ticks) => {
            text.append(format_number(ticks / 1000).as_str());
            text.append(" segundos\n");
        },
        Err(_) => {
            text.append("(desconhecido)\n");
        },
    }
    text.append(SYSINFO_TAIL);
    proof {
        assert(Seq::<char>::empty() + "(desconhecido)\n"@ =~= "(desconhecido)\n"@);
        assert(Seq::<char>::empty() + decimal((clock->Ok_0 / 1000) as nat) =~= decimal(
            (clock->Ok_0 / 1000) as nat,
        ));
    }
    output.write_str(text.as_str());
    Step::Done(CommandResult::Continue)
}

/// `meminfo`: a notice.
pub fn cmd_meminfo(output: &mut TerminalState)
    requires
        old(output).wf(),
    ensures
        final(output)@ == old(output)@.write_str(MEMINFO_TEXT@),
        final(output).wf(),
        final(output)@.same_size(old(output)@),
{
    output.write_str(MEMINFO_TEXT);
}

} // verus!

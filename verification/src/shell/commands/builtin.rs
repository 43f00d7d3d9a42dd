//! Commands that need nothing but the terminal.

use crate::state::terminal::TerminalState;
use crate::text::{spells, str_texts, to_chars};
use vstd::prelude::*;

verus! {

/// The overview that `help` prints.
pub const HELP_TEXT: &'static str = "
=== RedstoneOS Terminal v0.2.0 ===

COMANDOS DE ARQUIVOS:
  ls [path]        Lista arquivos e diretorios
  cd <path>        Muda diretorio atual
  pwd              Mostra diretorio atual
  cat <file>       Mostra conteudo de arquivo
  tree [path]      Mostra arvore de diretorios
  stat <path>      Mostra informacoes de arquivo
  mkdir <path>     Cria diretorio
  rmdir <path>     Remove diretorio vazio
  rm <file>        Remove arquivo
  cp <src> <dst>   Copia arquivo
  mv <src> <dst>   Move/renomeia arquivo

COMANDOS DE SISTEMA:
  uptime           Tempo desde boot
  ps [--json]      Lista processos
  kill <pid>       Mata processo
  top              Monitor de processos
  jobs             Lista jobs
  sysinfo          Informacoes do sistema
  meminfo          Informacoes de memoria

OUTROS:
  help [cmd]       Mostra esta ajuda
  clear            Limpa a tela
  exit             Sai do terminal
  echo <text>      Imprime texto
  ver              Versao do sistema

FLAGS FUTURAS:
  ls --json        Saida em formato JSON
  ps --json        Saida em formato JSON

";

/// What `help ls` prints.
pub const LS_HELP: &'static str = "ls - Lista arquivos e diretorios

USO: ls [opcoes] [caminho]

OPCOES:
  -l         Lista detalhada
  -a         Mostra arquivos ocultos
  --json     Saida em JSON (futuro)

EXEMPLOS:
  ls
  ls /apps
  ls -l /system
";

/// What `help cd` prints.
pub const CD_HELP: &'static str = "cd - Muda diretorio atual

USO: cd <caminho>

EXEMPLOS:
  cd /apps
  cd ..
  cd /
";

/// What `help cat` prints.
pub const CAT_HELP: &'static str = "cat - Mostra conteudo de arquivo

USO: cat <arquivo>

EXEMPLOS:
  cat /apps/config.txt
";

/// What `help tree` prints.
pub const TREE_HELP: &'static str = "tree - Mostra arvore de diretorios

USO: tree [caminho] [opcoes]

OPCOES:
  -d <n>     Profundidade maxima

EXEMPLOS:
  tree
  tree /system
  tree / -d 2
";

/// What `version` prints.
pub const VERSION_TEXT: &'static str = "
RedstoneOS v0.1.3 (Forge Kernel)
Terminal v0.2.0 (Firefly)
SDK v0.2.0 (Redpowder)

Copyright (c) 2026 RedstoneOS Team

";

/// The help page of one command; a notice for a command without one.
pub open spec fn command_help(cmd: Seq<char>) -> Seq<char> {
    if cmd == "ls"@ {
        LS_HELP@
    } else if cmd == "cd"@ {
        CD_HELP@
    } else if cmd == "cat"@ {
        CAT_HELP@
    } else if cmd == "tree"@ {
        TREE_HELP@
    } else {
        "Ajuda nao disponivel para: "@ + cmd + "\n"@
    }
}

/// What `help` prints: the page of its first argument, or the overview.
pub open spec fn help_text(args: Seq<Seq<char>>) -> Seq<char> {
    if args.len() > 0 {
        command_help(args[0])
    } else {
        HELP_TEXT@
    }
}

/// The arguments separated by single spaces.
pub open spec fn spaced(args: Seq<Seq<char>>) -> Seq<char>
    decreases args.len(),
{
    if args.len() == 0 {
        Seq::empty()
    } else if args.len() == 1 {
        args[0]
    } else {
        spaced(args.drop_last()) + " "@ + args.last()
    }
}

/// `help`: the overview, or the page of the command named first.
pub fn cmd_help(output: &mut TerminalState, args: &[&str])
    requires
        old(output).wf(),
    ensures
        final(output)@ == old(output)@.write_str(help_text(str_texts(args@))),
        final(output).wf(),
        final(output)@.same_size(old(output)@),
{
    if args.len() > 0 {
        show_command_help(output, args[0]);
    } else {
        output.write_str(HELP_TEXT);
    }
}

/// The help page of `cmd`.
pub fn show_command_help(output: &mut TerminalState, cmd: &str)
    requires
        old(output).wf(),
    ensures
        final(output)@ == old(output)@.write_str(command_help(cmd@)),
        final(output).wf(),
        final(output)@.same_size(old(output)@),
{
    let name = to_chars(cmd);
    if spells(&name, "ls") {
        output.write_str(LS_HELP);
    } else if spells(&name, "cd") {
        output.write_str(CD_HELP);
    } else if spells(&name, "cat") {
        output.write_str(CAT_HELP);
    } else if spells(&name, "tree") {
        output.write_str(TREE_HELP);
    } else {
        let mut msg = String::from_str("Ajuda nao disponivel para: ");
        msg.append(cmd);
        msg.append("\n");
        output.write_str(msg.as_str());
    }
}

/// `echo`: the arguments separated by single spaces, then a line feed.
pub fn cmd_echo(output: &mut TerminalState, args: &[&str])
    requires
        old(output).wf(),
    ensures
        final(output)@ == old(output)@.write_line(spaced(str_texts(args@))),
        final(output).wf(),
        final(output)@.same_size(old(output)@),
{
    let mut line = String::new();
    let mut i: usize = 0;
    proof {
        assert(str_texts(args@).take(0) =~= Seq::<Seq<char>>::empty());
    }
    while i < args.len()
        invariant
            i <= args.len(),
            line@ == spaced(str_texts(args@).take(i as int)),
        decreases args.len() - i,
    {
        if i > 0 {
            line.append(" ");
        }
        line.append(args[i]);
        proof {
            let upto = str_texts(args@).take(i + 1);
            assert(upto.drop_last() =~= str_texts(args@).take(i as int));
            assert(upto.last() == args@[i as int]@);
            if i == 0 {
                assert(line@ =~= args@[0]@);
            }
        }
        i += 1;
    }
    proof {
        assert(str_texts(args@).take(args@.len() as int) =~= str_texts(args@));
    }
    output.write_line(line.as_str());
}

/// `version`: the versions of system, terminal and SDK.
pub fn cmd_version(output: &mut TerminalState)
    requires
        old(output).wf(),
    ensures
        final(output)@ == old(output)@.write_str(VERSION_TEXT@),
        final(output).wf(),
        final(output)@.same_size(old(output)@),
{
    output.write_str(VERSION_TEXT);
}

} // verus!

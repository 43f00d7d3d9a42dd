use terminal::shell::commands::builtin::{cmd_echo, cmd_help, cmd_version, show_command_help};
use terminal::shell::commands::fs::{cmd_cp, cmd_mkdir, cmd_mv, cmd_rm, cmd_rmdir, error_to_str};
use terminal::shell::commands::listing::{entry_precedes, sort_entries};
use terminal::shell::commands::number::{format_number, write_number};
use terminal::shell::commands::system::{cmd_jobs, cmd_kill, cmd_meminfo, cmd_ps, cmd_top};
use terminal::shell::commands::tree::parse_usize;
use terminal::shell::commands::{
    execute_command, resume, CommandResult, DirEntry, FileStat, Step, SysError, SysReply,
    SysRequest,
};
use terminal::shell::context::ShellContext;
use terminal::state::terminal::TerminalState;

fn screen() -> TerminalState {
    TerminalState::new(100, 200)
}

/// The lines written so far; the last one is the line under the cursor.
fn lines(t: &TerminalState) -> Vec<String> {
    let mut out = Vec::new();
    for row in 0..=t.cursor_y() {
        out.push(t.get_visible_line(row).unwrap().to_string());
    }
    out
}

fn describe(request: &SysRequest) -> String {
    match request {
        SysRequest::Exists(p) => format!("exists {}", p),
        SysRequest::IsDir(p) => format!("is_dir {}", p),
        SysRequest::ChangeDir(p) => format!("chdir {}", p),
        SysRequest::CurrentDir => "getcwd".to_string(),
        SysRequest::ReadDir(p) => format!("readdir {}", p),
        SysRequest::OpenFile(p) => format!("open {}", p),
        SysRequest::ReadFile => "read".to_string(),
        SysRequest::Stat(p) => format!("stat {}", p),
        SysRequest::Clock => "clock".to_string(),
    }
}

/// Runs `line`, answering the requests with `replies` in order. Returns
/// how the command ended and what it asked.
fn drive(
    line: &str,
    ctx: &mut ShellContext,
    out: &mut TerminalState,
    replies: Vec<SysReply>,
) -> (CommandResult, Vec<String>) {
    let mut asked = Vec::new();
    let mut replies = replies.into_iter();
    let mut step = execute_command(line, ctx, out);
    loop {
        match step {
            Step::Done(result) => {
                assert!(replies.next().is_none(), "replies left over");
                return (result, asked);
            }
            Step::Wait(task) => {
                asked.push(describe(&task.request()));
                let reply = replies.next().expect("the command asks more than expected");
                step = resume(task, reply, ctx, out);
            }
        }
    }
}

fn entry(name: &str, is_dir: bool) -> DirEntry {
    DirEntry { name: name.to_string(), is_dir }
}

fn names(entries: &[DirEntry]) -> Vec<String> {
    entries.iter().map(|e| e.name.clone()).collect()
}

#[test]
fn blank_line_does_nothing() {
    let mut ctx = ShellContext::new();
    let mut out = screen();
    let (result, asked) = drive("   \t ", &mut ctx, &mut out, vec![]);
    assert!(matches!(result, CommandResult::Continue));
    assert!(asked.is_empty());
    assert_eq!(lines(&out), vec![""]);
}

#[test]
fn unknown_command_is_reported_on_the_terminal() {
    let mut ctx = ShellContext::new();
    let mut out = screen();
    let (result, _) = drive("frobnicate now", &mut ctx, &mut out, vec![]);
    assert!(matches!(result, CommandResult::Continue));
    assert_eq!(
        lines(&out),
        vec![
            "Comando nao encontrado: frobnicate",
            "Digite 'help' para ver comandos disponiveis.",
            ""
        ]
    );
}

#[test]
fn clear_and_exit_are_requests_to_the_caller() {
    let mut ctx = ShellContext::new();
    let mut out = screen();
    assert!(matches!(drive("clear", &mut ctx, &mut out, vec![]).0, CommandResult::Clear));
    assert!(matches!(drive("exit", &mut ctx, &mut out, vec![]).0, CommandResult::Exit));
    assert!(matches!(drive(" quit ", &mut ctx, &mut out, vec![]).0, CommandResult::Exit));
    assert_eq!(lines(&out), vec![""]);
}

#[test]
fn echo_joins_arguments_with_spaces() {
    let mut ctx = ShellContext::new();
    let mut out = screen();
    drive("echo 'hello world'   foo", &mut ctx, &mut out, vec![]);
    drive("echo", &mut ctx, &mut out, vec![]);
    assert_eq!(lines(&out), vec!["hello world foo", "", ""]);
    let mut out = screen();
    cmd_echo(&mut out, &["a", "b", "c"]);
    assert_eq!(lines(&out), vec!["a b c", ""]);
}

#[test]
fn help_prints_the_overview() {
    let mut out = screen();
    cmd_help(&mut out, &[]);
    let l = lines(&out);
    assert_eq!(l.len(), 37);
    assert_eq!(l[0], "");
    assert_eq!(l[1], "=== RedstoneOS Terminal v0.2.0 ===");
    assert_eq!(l[3], "COMANDOS DE ARQUIVOS:");
    assert_eq!(l[4], "  ls [path]        Lista arquivos e diretorios");
    assert_eq!(l[14], "  mv <src> <dst>   Move/renomeia arquivo");
    assert_eq!(l[16], "COMANDOS DE SISTEMA:");
    assert_eq!(l[34], "  ps --json        Saida em formato JSON");
    assert_eq!(l[35], "");
    assert_eq!(l[36], "");
}

#[test]
fn help_of_a_command() {
    let mut out = screen();
    cmd_help(&mut out, &["cd", "ls"]);
    assert_eq!(
        lines(&out),
        vec![
            "cd - Muda diretorio atual",
            "",
            "USO: cd <caminho>",
            "",
            "EXEMPLOS:",
            "  cd /apps",
            "  cd ..",
            "  cd /",
            ""
        ]
    );
    let mut out = screen();
    show_command_help(&mut out, "ls");
    assert_eq!(lines(&out).len(), 14);
    assert_eq!(lines(&out)[7], "  --json     Saida em JSON (futuro)");
    let mut out = screen();
    show_command_help(&mut out, "cat");
    assert_eq!(lines(&out)[5], "  cat /apps/config.txt");
    let mut out = screen();
    show_command_help(&mut out, "tree");
    assert_eq!(lines(&out)[10], "  tree / -d 2");
    let mut out = screen();
    show_command_help(&mut out, "nope");
    assert_eq!(lines(&out), vec!["Ajuda nao disponivel para: nope", ""]);
}

#[test]
fn version_prints_the_versions() {
    let mut out = screen();
    cmd_version(&mut out);
    assert_eq!(
        lines(&out),
        vec![
            "",
            "RedstoneOS v0.1.3 (Forge Kernel)",
            "Terminal v0.2.0 (Firefly)",
            "SDK v0.2.0 (Redpowder)",
            "",
            "Copyright (c) 2026 RedstoneOS Team",
            "",
            ""
        ]
    );
    let mut ctx = ShellContext::new();
    let mut other = screen();
    drive("ver", &mut ctx, &mut other, vec![]);
    assert_eq!(lines(&other), lines(&out));
}

#[test]
fn writing_commands_only_print_a_notice() {
    let mut ctx = ShellContext::new();
    let mut out = screen();
    cmd_mkdir(&mut out, &mut ctx, &["x"]);
    cmd_rmdir(&mut out, &mut ctx, &[]);
    cmd_rm(&mut out, &mut ctx, &[]);
    cmd_cp(&mut out, &mut ctx, &[]);
    cmd_mv(&mut out, &mut ctx, &[]);
    assert_eq!(
        lines(&out),
        vec![
            "mkdir: Nao implementado",
            "(O filesystem ainda e somente leitura)",
            "rmdir: Nao implementado",
            "(O filesystem ainda e somente leitura)",
            "rm: Nao implementado",
            "(O filesystem ainda e somente leitura)",
            "cp: Nao implementado",
            "(O filesystem ainda e somente leitura)",
            "mv: Nao implementado",
            "(O filesystem ainda e somente leitura)",
            ""
        ]
    );
    let mut out = screen();
    drive("del x", &mut ctx, &mut out, vec![]);
    drive("copy a b", &mut ctx, &mut out, vec![]);
    drive("rename a b", &mut ctx, &mut out, vec![]);
    let l = lines(&out);
    assert_eq!(l[0], "rm: Nao implementado");
    assert_eq!(l[2], "cp: Nao implementado");
    assert_eq!(l[4], "mv: Nao implementado");
    assert_eq!(ctx.cwd(), "/");
}

#[test]
fn process_commands_only_print_a_notice() {
    let mut out = screen();
    cmd_ps(&mut out, &[]);
    assert_eq!(lines(&out)[0], "ps: Nao implementado");
    assert_eq!(lines(&out)[7], "    3     2  R      terminal");
    let mut out = screen();
    cmd_ps(&mut out, &["-x", "--json"]);
    assert_eq!(
        lines(&out),
        vec!["ps --json: Nao implementado", "(Contrato futuro para integracao com ferramentas)", ""]
    );
    let mut out = screen();
    cmd_kill(&mut out, &[]);
    assert_eq!(lines(&out), vec!["kill: falta PID", "Uso: kill <pid>", ""]);
    let mut out = screen();
    cmd_kill(&mut out, &["7"]);
    assert_eq!(lines(&out), vec!["kill: Nao implementado", "(Requer syscall de sinais)", ""]);
    let mut out = screen();
    cmd_top(&mut out);
    assert_eq!(lines(&out)[4], "  CPU: 12%  MEM: 45MB/256MB");
    assert_eq!(lines(&out).len(), 9);
    let mut out = screen();
    cmd_jobs(&mut out);
    assert_eq!(lines(&out), vec!["jobs: Nao implementado", "(Requer suporte a job control)", ""]);
    let mut out = screen();
    cmd_meminfo(&mut out);
    assert_eq!(lines(&out)[1], "=== Memory Info ===");
    assert_eq!(lines(&out)[11], "  Buffers:     5 MB");
    assert_eq!(lines(&out).len(), 13);
}

#[test]
fn cd_to_a_missing_directory_reports_and_stays() {
    let mut ctx = ShellContext::new();
    let mut out = screen();
    let (result, asked) = drive("cd /missing", &mut ctx, &mut out, vec![SysReply::Exists(false)]);
    assert!(matches!(result, CommandResult::Continue));
    assert_eq!(asked, vec!["exists /missing"]);
    assert_eq!(ctx.cwd(), "/");
    assert_eq!(lines(&out), vec!["cd: /missing: Nao existe", ""]);
}

#[test]
fn cd_to_a_file_reports_and_stays() {
    let mut ctx = ShellContext::new();
    let mut out = screen();
    let (_, asked) = drive(
        "cd apps/../etc/passwd",
        &mut ctx,
        &mut out,
        vec![SysReply::Exists(true), SysReply::IsDir(false)],
    );
    assert_eq!(asked, vec!["exists /etc/passwd", "is_dir /etc/passwd"]);
    assert_eq!(ctx.cwd(), "/");
    assert_eq!(lines(&out), vec!["cd: /etc/passwd: Nao e um diretorio", ""]);
}

#[test]
fn cd_changes_the_working_directory() {
    let mut ctx = ShellContext::new();
    let mut out = screen();
    let (_, asked) = drive(
        "cd /apps/",
        &mut ctx,
        &mut out,
        vec![SysReply::Exists(true), SysReply::IsDir(true), SysReply::ChangeDir(Ok(()))],
    );
    assert_eq!(asked, vec!["exists /apps", "is_dir /apps", "chdir /apps"]);
    assert_eq!(ctx.cwd(), "/apps");
    assert_eq!(lines(&out), vec![""]);
    drive(
        "cd bin",
        &mut ctx,
        &mut out,
        vec![SysReply::Exists(true), SysReply::IsDir(true), SysReply::ChangeDir(Ok(()))],
    );
    assert_eq!(ctx.cwd(), "/apps/bin");
    let (_, asked) = drive(
        "cd",
        &mut ctx,
        &mut out,
        vec![
            SysReply::Exists(true),
            SysReply::IsDir(true),
            SysReply::ChangeDir(Err(SysError::PermissionDenied)),
        ],
    );
    assert_eq!(asked, vec!["exists /", "is_dir /", "chdir /"]);
    assert_eq!(ctx.cwd(), "/apps/bin");
    assert_eq!(lines(&out), vec!["cd: /: Permissao negada", ""]);
}

#[test]
fn pwd_prefers_the_answer_of_the_system() {
    let mut ctx = ShellContext::new();
    let mut out = screen();
    let (_, asked) =
        drive("pwd", &mut ctx, &mut out, vec![SysReply::CurrentDir(Ok("/sys".to_string()))]);
    assert_eq!(asked, vec!["getcwd"]);
    drive("pwd", &mut ctx, &mut out, vec![SysReply::CurrentDir(Err(SysError::NotImplemented))]);
    assert_eq!(lines(&out), vec!["/sys", "/", ""]);
}

#[test]
fn ls_lists_directories_first() {
    let mut ctx = ShellContext::new();
    let mut out = screen();
    let (_, asked) = drive(
        "ls",
        &mut ctx,
        &mut out,
        vec![SysReply::ReadDir(Ok(vec![
            entry("b.txt", false),
            entry("a", true),
            entry(".hidden", false),
            entry("c", true),
            entry(".", true),
        ]))],
    );
    assert_eq!(asked, vec!["readdir /"]);
    assert_eq!(lines(&out), vec!["[a]  [c]  b.txt", ""]);
}

#[test]
fn ls_order_is_directories_then_names() {
    let sorted = sort_entries(vec![entry("b.txt", false), entry("a", true), entry("c", true)], true);
    assert_eq!(names(&sorted), vec!["a", "c", "b.txt"]);
    let sorted = sort_entries(
        vec![entry("b", false), entry("B", false), entry("ab", false), entry("a", false), entry("", false)],
        true,
    );
    assert_eq!(names(&sorted), vec!["", "B", "a", "ab", "b"]);
    let by_name = sort_entries(vec![entry("b.txt", false), entry("a", true), entry("c", true)], false);
    assert_eq!(names(&by_name), vec!["a", "b.txt", "c"]);
    let stable = sort_entries(vec![entry("x", false), entry("x", true), entry("a", false)], false);
    assert_eq!(names(&stable), vec!["a", "x", "x"]);
    assert!(!stable[1].is_dir);
    assert!(stable[2].is_dir);
    assert!(entry_precedes(&entry("z", true), &entry("a", false), true));
    assert!(!entry_precedes(&entry("z", true), &entry("a", false), false));
    assert!(entry_precedes(&entry("é", false), &entry("ü", false), true));
    assert!(names(&sort_entries(vec![], true)).is_empty());
}

#[test]
fn ls_with_details_and_hidden_entries() {
    let mut ctx = ShellContext::new();
    let mut out = screen();
    let (_, asked) = drive(
        "ls -la /apps",
        &mut ctx,
        &mut out,
        vec![SysReply::ReadDir(Ok(vec![entry("b.txt", false), entry(".cfg", false), entry("a", true)]))],
    );
    assert_eq!(asked, vec!["readdir /apps"]);
    assert_eq!(
        lines(&out),
        vec![
            "TIPO  TAMANHO  NOME",
            "----  -------  ----",
            "DIR          -  [a]",
            "FILE         -  .cfg",
            "FILE         -  b.txt",
            ""
        ]
    );
}

#[test]
fn ls_wraps_long_listings() {
    let mut ctx = ShellContext::new();
    let mut out = screen();
    let entries: Vec<DirEntry> = (0..8).map(|i| entry(&format!("file-number-{:02}", i), false)).collect();
    drive("dir", &mut ctx, &mut out, vec![SysReply::ReadDir(Ok(entries))]);
    // each name has 14 bytes: four fit (14 * 4 + 2 * 3 = 62), a fifth would reach 78
    assert_eq!(
        lines(&out),
        vec![
            "file-number-00  file-number-01  file-number-02  file-number-03",
            "file-number-04  file-number-05  file-number-06  file-number-07",
            ""
        ]
    );
}

#[test]
fn ls_reports_options_and_errors() {
    let mut ctx = ShellContext::new();
    let mut out = screen();
    let (_, asked) = drive("ls -l -z -q", &mut ctx, &mut out, vec![]);
    assert!(asked.is_empty());
    drive("ls --json", &mut ctx, &mut out, vec![]);
    let (_, asked) =
        drive("ls a b", &mut ctx, &mut out, vec![SysReply::ReadDir(Err(SysError::NotFound))]);
    assert_eq!(asked, vec!["readdir /b"]);
    drive("ls", &mut ctx, &mut out, vec![SysReply::ReadDir(Ok(vec![entry(".x", false)]))]);
    assert_eq!(
        lines(&out),
        vec![
            "ls: opcao desconhecida: -z",
            "ls --json: Nao implementado ainda",
            "ls: /b: Nao encontrado",
            "(diretorio vazio)",
            ""
        ]
    );
}

#[test]
fn cat_shows_text_and_drops_control_characters() {
    let mut ctx = ShellContext::new();
    let mut out = screen();
    let (_, asked) = drive(
        "cat /etc/motd",
        &mut ctx,
        &mut out,
        vec![
            SysReply::OpenFile(Ok(())),
            SysReply::ReadFile(Ok(b"ol\xc3\xa1\r\n\tmun\x07do\n".to_vec())),
            SysReply::ReadFile(Ok(b"fim".to_vec())),
            SysReply::ReadFile(Ok(vec![])),
        ],
    );
    assert_eq!(asked, vec!["open /etc/motd", "read", "read", "read"]);
    assert_eq!(lines(&out), vec!["olá", "\tmundo", "fim"]);
}

#[test]
fn cat_reports_binary_content_and_errors() {
    let mut ctx = ShellContext::new();
    let mut out = screen();
    let (_, asked) = drive(
        "type a b c d",
        &mut ctx,
        &mut out,
        vec![
            SysReply::OpenFile(Err(SysError::IsDirectory)),
            SysReply::OpenFile(Ok(())),
            SysReply::ReadFile(Ok(vec![b'o', b'k', b'\n'])),
            SysReply::ReadFile(Ok(vec![0xff, 0xfe, b'a'])),
            SysReply::OpenFile(Ok(())),
            SysReply::ReadFile(Err(SysError::IoError)),
            SysReply::OpenFile(Err(SysError::Other)),
        ],
    );
    assert_eq!(asked, vec!["open /a", "open /b", "read", "read", "open /c", "read", "open /d"]);
    assert_eq!(
        lines(&out),
        vec![
            "cat: /a: E um diretorio",
            "ok",
            "(conteudo binario nao exibido)",
            "cat: /c: Erro de E/S",
            "cat: /d: Erro desconhecido",
            ""
        ]
    );
    let mut out = screen();
    drive("cat", &mut ctx, &mut out, vec![]);
    assert_eq!(lines(&out), vec!["cat: falta operando arquivo", "Uso: cat <arquivo>", ""]);
}

#[test]
fn stat_prints_type_size_and_mode() {
    let mut ctx = ShellContext::new();
    let mut out = screen();
    let (_, asked) = drive(
        "stat /a b",
        &mut ctx,
        &mut out,
        vec![
            SysReply::Stat(Ok(FileStat { file_type: 2, size: 4096, mode: 493 })),
            SysReply::Stat(Err(SysError::NotDirectory)),
        ],
    );
    assert_eq!(asked, vec!["stat /a", "stat /b"]);
    assert_eq!(
        lines(&out),
        vec![
            "  Arquivo: /a",
            "     Tipo: diretorio",
            "  Tamanho: 4096 bytes",
            "     Mode: 493",
            "stat: /b: Nao e um diretorio",
            ""
        ]
    );
    let mut out = screen();
    drive("stat", &mut ctx, &mut out, vec![]);
    assert_eq!(lines(&out), vec!["stat: falta operando", ""]);
    for (kind, name) in [(1, "arquivo regular"), (3, "link simbolico"), (0, "desconhecido"), (9, "desconhecido")] {
        let mut out = screen();
        drive(
            "stat x",
            &mut ctx,
            &mut out,
            vec![SysReply::Stat(Ok(FileStat { file_type: kind, size: 0, mode: 0 }))],
        );
        assert_eq!(lines(&out)[1], format!("     Tipo: {}", name));
        assert_eq!(lines(&out)[2], "  Tamanho: 0 bytes");
    }
}

#[test]
fn uptime_splits_hours_minutes_and_seconds() {
    let mut ctx = ShellContext::new();
    let mut out = screen();
    let (_, asked) = drive("uptime", &mut ctx, &mut out, vec![SysReply::Clock(Ok(3_723_999))]);
    assert_eq!(asked, vec!["clock"]);
    drive("uptime", &mut ctx, &mut out, vec![SysReply::Clock(Ok(999))]);
    drive("uptime", &mut ctx, &mut out, vec![SysReply::Clock(Err(SysError::NotImplemented))]);
    drive("uptime", &mut ctx, &mut out, vec![SysReply::Clock(Ok(u64::MAX))]);
    assert_eq!(
        lines(&out),
        vec![
            "Uptime: 1h 2m 3s",
            "Uptime: 0h 0m 0s",
            "uptime: Nao foi possivel obter tempo",
            "Uptime: 5124095576030h 25m 51s",
            ""
        ]
    );
}

#[test]
fn sysinfo_prints_the_uptime_in_seconds() {
    let mut ctx = ShellContext::new();
    let mut out = screen();
    drive("sysinfo", &mut ctx, &mut out, vec![SysReply::Clock(Ok(61_500))]);
    assert_eq!(
        lines(&out),
        vec![
            "",
            "=== RedstoneOS System Info ===",
            "",
            "  OS:        RedstoneOS v0.1.3",
            "  Kernel:    Forge Microkernel",
            "  Arch:      x86_64",
            "  Shell:     Firefly Terminal v0.2.0",
            "",
            "  Uptime:    61 segundos",
            "",
            "(sysinfo completo requer syscall SYS_SYSINFO)",
            ""
        ]
    );
    let mut out = screen();
    drive("sysinfo", &mut ctx, &mut out, vec![SysReply::Clock(Err(SysError::Other))]);
    assert_eq!(lines(&out)[8], "  Uptime:    (desconhecido)");
}

#[test]
fn tree_descends_to_the_given_depth() {
    let mut ctx = ShellContext::new();
    let mut out = screen();
    let (_, asked) = drive(
        "tree /r -d 2",
        &mut ctx,
        &mut out,
        vec![
            SysReply::ReadDir(Ok(vec![
                entry("..", true),
                entry("z.txt", false),
                entry("b", true),
                entry(".", true),
                entry("a", true),
            ])),
            SysReply::ReadDir(Ok(vec![entry("deep", true), entry("a1", false)])),
            SysReply::ReadDir(Err(SysError::PermissionDenied)),
        ],
    );
    assert_eq!(asked, vec!["readdir /r", "readdir /r/a", "readdir /r/b"]);
    assert_eq!(
        lines(&out),
        vec![
            "/r",
            "├── [a]",
            "│   ├── a1",
            "│   └── [deep]",
            "├── [b]",
            "└── z.txt",
            ""
        ]
    );
}

#[test]
fn tree_defaults_to_three_levels() {
    let mut ctx = ShellContext::new();
    let mut out = screen();
    let (_, asked) = drive(
        "tree",
        &mut ctx,
        &mut out,
        vec![
            SysReply::ReadDir(Ok(vec![entry("a", true)])),
            SysReply::ReadDir(Ok(vec![entry("b", true)])),
            SysReply::ReadDir(Ok(vec![entry("c", true), entry("d", false)])),
        ],
    );
    assert_eq!(asked, vec!["readdir /", "readdir /a", "readdir /a/b"]);
    assert_eq!(
        lines(&out),
        vec!["/", "└── [a]", "    └── [b]", "        ├── [c]", "        └── d", ""]
    );
    let mut out = screen();
    let (_, asked) = drive("tree -d 0 x", &mut ctx, &mut out, vec![]);
    assert!(asked.is_empty());
    assert_eq!(lines(&out), vec!["/x", ""]);
    let mut out = screen();
    let (_, asked) = drive(
        "tree -d x -q -d",
        &mut ctx,
        &mut out,
        vec![SysReply::ReadDir(Ok(vec![]))],
    );
    assert_eq!(asked, vec!["readdir /"]);
    assert_eq!(lines(&out), vec!["/", ""]);
}

#[test]
fn parse_usize_reads_decimal_numbers() {
    assert_eq!(parse_usize("0"), Some(0));
    assert_eq!(parse_usize("42"), Some(42));
    assert_eq!(parse_usize("+7"), Some(7));
    assert_eq!(parse_usize("007"), Some(7));
    assert_eq!(parse_usize(""), None);
    assert_eq!(parse_usize("+"), None);
    assert_eq!(parse_usize("-1"), None);
    assert_eq!(parse_usize("1 "), None);
    assert_eq!(parse_usize("1a"), None);
    assert_eq!(parse_usize("++1"), None);
    assert_eq!(parse_usize(&usize::MAX.to_string()), Some(usize::MAX));
    assert_eq!(parse_usize(&format!("{}0", usize::MAX)), None);
    for s in ["18446744073709551616", "99999999999999999999999", "12", "+0", "٣"] {
        assert_eq!(parse_usize(s), s.parse::<usize>().ok());
    }
}

#[test]
fn numbers_are_written_in_decimal() {
    assert_eq!(format_number(0), "0");
    assert_eq!(format_number(7), "7");
    assert_eq!(format_number(10), "10");
    assert_eq!(format_number(1234567890), "1234567890");
    assert_eq!(format_number(u64::MAX), "18446744073709551615");
    let mut out = screen();
    write_number(&mut out, 305);
    assert_eq!(lines(&out), vec!["305"]);
}

#[test]
fn every_error_has_a_text() {
    assert_eq!(error_to_str(SysError::NotFound), "Nao encontrado");
    assert_eq!(error_to_str(SysError::PermissionDenied), "Permissao negada");
    assert_eq!(error_to_str(SysError::IsDirectory), "E um diretorio");
    assert_eq!(error_to_str(SysError::NotDirectory), "Nao e um diretorio");
    assert_eq!(error_to_str(SysError::NotImplemented), "Nao implementado");
    assert_eq!(error_to_str(SysError::IoError), "Erro de E/S");
    assert_eq!(error_to_str(SysError::Other), "Erro desconhecido");
}

#[test]
fn a_reply_to_another_request_is_an_error() {
    let mut ctx = ShellContext::new();
    let mut out = screen();
    let (result, _) = drive("cd /x", &mut ctx, &mut out, vec![SysReply::Clock(Ok(1))]);
    match result {
        CommandResult::Error(msg) => assert_eq!(msg, "resposta inesperada do sistema"),
        _ => panic!("expected an error"),
    }
    assert_eq!(ctx.cwd(), "/");
    assert_eq!(lines(&out), vec![""]);
}

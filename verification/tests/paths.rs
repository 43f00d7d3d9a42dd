use terminal::shell::context::ShellContext;
use terminal::shell::parser::{is_space, parse_args, trimmed};
use terminal::shell::path::{join_path, normalize_path, resolve_path};

#[test]
fn normalize_drops_dot_and_empty_components() {
    assert_eq!(normalize_path("/a/./b//c/"), "/a/b/c");
    assert_eq!(normalize_path(""), "/");
    assert_eq!(normalize_path("/"), "/");
    assert_eq!(normalize_path("///"), "/");
    assert_eq!(normalize_path("a/b"), "/a/b");
    assert_eq!(normalize_path("."), "/");
}

#[test]
fn normalize_resolves_parent_components() {
    assert_eq!(normalize_path("/a/b/../c"), "/a/c");
    assert_eq!(normalize_path("/../a"), "/a");
    assert_eq!(normalize_path("/a/.."), "/");
    assert_eq!(normalize_path("/a/../.."), "/");
    assert_eq!(normalize_path("/a/b/c/../../d"), "/a/d");
    assert_eq!(normalize_path("/..."), "/...");
    assert_eq!(normalize_path("/a/..b/.c"), "/a/..b/.c");
}

#[test]
fn normalize_is_idempotent_on_examples() {
    for p in ["", "/", "/a/b/../c", "/../a", "a//b/./c/..", "..", "/x/y/z/", "é/./ü/.."] {
        let once = normalize_path(p);
        assert_eq!(normalize_path(&once), once);
    }
}

#[test]
fn resolve_joins_relative_paths_to_the_working_directory() {
    assert_eq!(resolve_path("/home", "docs"), "/home/docs");
    assert_eq!(resolve_path("/home/", "docs"), "/home/docs");
    assert_eq!(resolve_path("/", "docs"), "/docs");
    assert_eq!(resolve_path("/home/user", ".."), "/home");
    assert_eq!(resolve_path("/home/user", "../../.."), "/");
    assert_eq!(resolve_path("/home", ""), "/home");
}

#[test]
fn resolve_keeps_absolute_paths() {
    assert_eq!(resolve_path("/home", "/etc/./x"), "/etc/x");
    assert_eq!(resolve_path("/home", "/"), "/");
}

#[test]
fn join_path_puts_one_slash_between() {
    assert_eq!(join_path("/a", "b"), "/a/b");
    assert_eq!(join_path("/a///", "b"), "/a/b");
    assert_eq!(join_path("/", "b"), "/b");
    assert_eq!(join_path("/a", "../b"), "/a/../b");
}

#[test]
fn parse_splits_on_blanks() {
    assert_eq!(parse_args("ls -l /tmp"), vec!["ls", "-l", "/tmp"]);
    assert_eq!(parse_args("a\tb  c"), vec!["a", "b", "c"]);
    assert!(parse_args("  ").is_empty());
    assert!(parse_args("").is_empty());
}

#[test]
fn parse_keeps_blanks_inside_quotes() {
    assert_eq!(parse_args("echo 'hello world' foo"), vec!["echo", "hello world", "foo"]);
    assert_eq!(parse_args("echo \"a  b\""), vec!["echo", "a  b"]);
    assert_eq!(parse_args("echo \"it's\" 'say \"hi\"'"), vec!["echo", "it's", "say \"hi\""]);
    assert_eq!(parse_args("a'b c'd"), vec!["ab cd"]);
}

#[test]
fn parse_reads_open_quotes_to_the_end() {
    assert_eq!(parse_args("echo 'hello world"), vec!["echo", "hello world"]);
    assert_eq!(parse_args("echo '' x"), vec!["echo", "x"]);
}

#[test]
fn trimmed_strips_unicode_white_space() {
    let s: String = trimmed(" \t\n ls -l \u{a0}\u{3000}\r\n").into_iter().collect();
    assert_eq!(s, "ls -l");
    let s: String = trimmed("   ").into_iter().collect();
    assert_eq!(s, "");
    for c in ['\u{0}', ' ', '\t', '\n', '\u{b}', '\u{c}', '\r', '\u{85}', '\u{a0}', '\u{1680}',
        '\u{2000}', '\u{200a}', '\u{200b}', '\u{2028}', '\u{2029}', '\u{202f}', '\u{205f}',
        '\u{3000}', 'a', '\u{feff}'] {
        assert_eq!(is_space(c), c.is_whitespace());
    }
}

#[test]
fn context_starts_at_the_root() {
    let ctx = ShellContext::new();
    assert_eq!(ctx.cwd(), "/");
    assert_eq!(ctx.username(), "redstone");
    assert_eq!(ctx.hostname(), "localhost");
    assert_eq!(ctx.last_exit_code(), 0);
    assert_eq!(ctx.prompt(), "redstone@localhost:/$ ");
    let d = ShellContext::default();
    assert_eq!(d.prompt(), "redstone@localhost:/$ ");
}

#[test]
fn set_cwd_changes_the_prompt() {
    let mut ctx = ShellContext::new();
    ctx.set_cwd("/apps/bin");
    assert_eq!(ctx.cwd(), "/apps/bin");
    assert_eq!(ctx.prompt(), "redstone@localhost:/apps/bin$ ");
    assert_eq!(ctx.username(), "redstone");
}

use terminal::render::canvas::{Canvas, DrawOp};
use terminal::render::colors;
use terminal::render::font::BitFont;
use terminal::shell::commands::{SysReply, SysRequest};
use terminal::ui::event::{Event, Key};
use terminal::ui::window::TerminalWindow;

fn key(c: char) -> Event {
    Event::KeyDown(Key::Text { plain: c, shifted: c.to_ascii_uppercase() })
}

fn type_line(w: &mut TerminalWindow, text: &str) {
    for c in text.chars() {
        w.handle_event(key(c));
    }
    w.handle_event(Event::KeyDown(Key::Enter));
}

fn shown(w: &TerminalWindow) -> Vec<String> {
    let mut out = Vec::new();
    for row in 0..=w.state().cursor_y() {
        out.push(w.state().get_visible_line(row).unwrap().to_string());
    }
    out
}

#[test]
fn window_size_gives_columns_and_rows() {
    let w = TerminalWindow::new(720, 480);
    assert_eq!(w.cols(), 88);
    assert_eq!(w.rows(), 27);
    assert!(w.dirty());
    assert!(!w.should_close());
    assert!(w.pending_request().is_none());
    assert!(w.can_draw());
    let small = TerminalWindow::new(92, 53);
    assert_eq!(small.cols(), 10);
    assert_eq!(small.rows(), 1);
    assert!(small.can_draw());
}

#[test]
fn a_window_without_room_for_the_title_bar_still_works() {
    let mut w = TerminalWindow::new(10, 53);
    assert_eq!(w.cols(), 0);
    assert_eq!(w.rows(), 1);
    assert!(!w.can_draw());
    assert!(!TerminalWindow::new(91, 480).can_draw());
    assert_eq!(TerminalWindow::new(17, 69).cols(), 0);
    assert_eq!(TerminalWindow::new(18, 69).cols(), 1);
    assert_eq!(TerminalWindow::new(18, 68).rows(), 1);
    assert_eq!(TerminalWindow::new(18, 69).rows(), 2);
    assert_eq!(w.shell_ctx().cwd(), "/");
    assert!(w.dirty());
    assert!(!w.should_close());
    w.handle_event(key('a'));
    assert_eq!(w.state().cursor_x(), 0);
    // the close button of a window narrower than the button
    w.handle_event(Event::MouseDown { x: 0, y: 0 });
    assert!(w.should_close());
}

#[test]
fn shift_and_the_close_button_work_while_a_command_waits() {
    let mut w = TerminalWindow::new(720, 480);
    type_line(&mut w, "pwd");
    assert!(w.pending_request().is_some());
    w.handle_event(Event::KeyDown(Key::Shift));
    // keys that type or run are held back
    w.handle_event(key('a'));
    w.handle_event(Event::KeyDown(Key::Backspace));
    w.handle_event(Event::KeyDown(Key::Enter));
    assert_eq!(shown(&w), vec!["pwd", ""]);
    assert!(matches!(w.pending_request(), Some(SysRequest::CurrentDir)));
    w.deliver(SysReply::CurrentDir(Ok("/".to_string())));
    // shift went down while the command waited
    w.handle_event(key('a'));
    assert_eq!(shown(&w), vec!["pwd", "/", "redstone@localhost:/$ A"]);
    type_line(&mut w, "");
    w.handle_event(Event::KeyUp(Key::Shift));
    type_line(&mut w, "pwd");
    assert!(!w.should_close());
    w.handle_event(Event::MouseDown { x: 700, y: 5 });
    assert!(w.should_close());
    assert!(w.pending_request().is_some());
}

#[test]
fn welcome_ends_with_the_prompt() {
    let mut w = TerminalWindow::new(720, 480);
    w.show_welcome();
    assert_eq!(
        shown(&w),
        vec![
            "RedstoneOS Terminal v0.2.0",
            "==========================",
            "",
            "Bem-vindo ao terminal do RedstoneOS!",
            "Digite 'help' para ver os comandos disponiveis.",
            "",
            "redstone@localhost:/$ "
        ]
    );
}

#[test]
fn typing_echoes_and_shift_selects_the_upper_character() {
    let mut w = TerminalWindow::new(720, 480);
    w.show_welcome();
    w.handle_event(key('a'));
    w.handle_event(Event::KeyDown(Key::Shift));
    w.handle_event(key('b'));
    w.handle_event(Event::KeyUp(Key::Enter));
    w.handle_event(key('c'));
    w.handle_event(Event::KeyUp(Key::Shift));
    w.handle_event(key('d'));
    w.handle_event(Event::KeyDown(Key::Other));
    w.handle_event(Event::Other);
    assert_eq!(shown(&w)[6], "redstone@localhost:/$ aBCd");
}

#[test]
fn backspace_stops_at_the_prompt() {
    let mut w = TerminalWindow::new(720, 480);
    w.show_welcome();
    w.handle_event(key('a'));
    w.handle_event(key('b'));
    w.handle_event(Event::KeyDown(Key::Backspace));
    assert_eq!(shown(&w)[6], "redstone@localhost:/$ a");
    w.handle_event(Event::KeyDown(Key::Backspace));
    w.handle_event(Event::KeyDown(Key::Backspace));
    w.handle_event(Event::KeyDown(Key::Backspace));
    assert_eq!(shown(&w)[6], "redstone@localhost:/$ ");
}

#[test]
fn enter_runs_the_command_and_shows_the_prompt() {
    let mut w = TerminalWindow::new(720, 480);
    w.show_welcome();
    type_line(&mut w, "echo hi");
    let lines = shown(&w);
    assert_eq!(lines[6], "redstone@localhost:/$ echo hi");
    assert_eq!(lines[7], "hi");
    assert_eq!(lines[8], "redstone@localhost:/$ ");
    type_line(&mut w, "");
    assert_eq!(shown(&w)[9], "redstone@localhost:/$ ");
}

#[test]
fn cd_to_a_missing_directory_end_to_end() {
    let mut w = TerminalWindow::new(720, 480);
    w.show_welcome();
    type_line(&mut w, "cd /missing");
    match w.pending_request() {
        Some(SysRequest::Exists(path)) => assert_eq!(path, "/missing"),
        _ => panic!("cd asks whether the directory exists"),
    }
    // typing is held back while the command waits
    w.handle_event(key('x'));
    w.deliver(SysReply::Exists(false));
    assert!(w.pending_request().is_none());
    assert_eq!(w.shell_ctx().cwd(), "/");
    let lines = shown(&w);
    assert_eq!(lines[6], "redstone@localhost:/$ cd /missing");
    assert_eq!(lines[7], "cd: /missing: Nao existe");
    assert_eq!(lines[8], "redstone@localhost:/$ ");
    assert_eq!(lines.len(), 9);
}

#[test]
fn cd_changes_the_prompt() {
    let mut w = TerminalWindow::new(720, 480);
    type_line(&mut w, "cd apps");
    w.deliver(SysReply::Exists(true));
    assert!(matches!(w.pending_request(), Some(SysRequest::IsDir(_))));
    w.deliver(SysReply::IsDir(true));
    assert!(matches!(w.pending_request(), Some(SysRequest::ChangeDir(_))));
    w.deliver(SysReply::ChangeDir(Ok(())));
    assert_eq!(w.shell_ctx().cwd(), "/apps");
    assert_eq!(shown(&w), vec!["cd apps", "redstone@localhost:/apps$ "]);
}

#[test]
fn exit_and_the_close_button_end_the_session() {
    let mut w = TerminalWindow::new(720, 480);
    type_line(&mut w, "exit");
    assert!(w.should_close());
    let mut w = TerminalWindow::new(720, 480);
    w.handle_event(Event::MouseDown { x: 673, y: 10 });
    assert!(!w.should_close());
    w.handle_event(Event::MouseDown { x: 674, y: 28 });
    assert!(!w.should_close());
    w.handle_event(Event::MouseDown { x: 720, y: 0 });
    assert!(!w.should_close());
    w.handle_event(Event::MouseDown { x: 700, y: -1 });
    assert!(!w.should_close());
    w.handle_event(Event::MouseDown { x: 674, y: 27 });
    assert!(w.should_close());
}

#[test]
fn clear_command_resets_the_screen() {
    let mut w = TerminalWindow::new(720, 480);
    w.show_welcome();
    type_line(&mut w, "clear");
    assert_eq!(shown(&w), vec!["redstone@localhost:/$ "]);
    w.writeln("x");
    w.write("y");
    assert_eq!(shown(&w), vec!["redstone@localhost:/$ x", "y"]);
    w.clear();
    assert_eq!(shown(&w), vec![""]);
}

#[test]
fn an_unexpected_reply_is_shown_as_an_error() {
    let mut w = TerminalWindow::new(720, 480);
    type_line(&mut w, "pwd");
    w.deliver(SysReply::Exists(true));
    assert_eq!(
        shown(&w),
        vec!["pwd", "Erro: resposta inesperada do sistema", "redstone@localhost:/$ "]
    );
    // without a waiting command a reply changes nothing
    w.deliver(SysReply::Exists(true));
    assert_eq!(shown(&w).len(), 3);
}

#[test]
fn frames_redraw_only_when_dirty() {
    let mut w = TerminalWindow::new(720, 480);
    let mut canvas = Canvas::new();
    assert!(w.redraw(&mut canvas));
    assert!(!w.dirty());
    let first = canvas.len();
    assert!(first > 0);
    for _ in 0..29 {
        w.frame();
        assert!(!w.redraw(&mut canvas));
    }
    assert_eq!(canvas.len(), first);
    w.frame();
    assert!(w.dirty());
    assert!(!w.state().cursor_visible());
    assert!(w.redraw(&mut canvas));
    w.handle_event(key('a'));
    assert!(w.dirty());
    w.tick();
    assert!(w.dirty());
}

#[test]
fn draw_paints_background_text_and_cursor() {
    let mut glyph = [0u8; 16];
    glyph[0] = 0x80;
    let mut w = TerminalWindow::with_font(720, 480, BitFont::with_glyphs('a', vec![glyph]));
    w.write("a\na");
    let mut canvas = Canvas::new();
    w.draw(&mut canvas);
    let ops: Vec<DrawOp> = (0..canvas.len()).map(|i| canvas.op(i)).collect();
    // decorations: bar + 8 title glyphs + 2 buttons with a glyph each + 3 border fills
    let decorations = 1 + 8 * 128 + 2 * 129 + 3;
    assert_eq!(ops.len(), decorations + 1 + 2 * 128 + 1);
    assert_eq!(
        ops[decorations],
        DrawOp::Fill { left: 5, top: 32, width: 710, height: 443, color: colors::BACKGROUND }
    );
    assert_eq!(ops[decorations + 1], DrawOp::Pixel { x: 5, y: 32, color: colors::TEXT });
    assert_eq!(ops[decorations + 2], DrawOp::Pixel { x: 6, y: 32, color: colors::BACKGROUND });
    assert_eq!(ops[decorations + 129], DrawOp::Pixel { x: 5, y: 48, color: colors::TEXT });
    assert_eq!(
        ops[decorations + 257],
        DrawOp::Fill { left: 13, top: 48, width: 8, height: 16, color: colors::CURSOR }
    );
    for _ in 0..30 {
        w.tick();
    }
    let mut canvas = Canvas::new();
    w.draw(&mut canvas);
    assert_eq!(canvas.len(), decorations + 1 + 2 * 128);
}

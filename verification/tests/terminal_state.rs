use terminal::state::terminal::{TerminalState, BLINK_PERIOD, MAX_SCROLL_LINES};

fn line(t: &TerminalState, row: u32) -> String {
    t.get_visible_line(row).unwrap().to_string()
}

#[test]
fn new_terminal_is_blank() {
    let t = TerminalState::new(80, 25);
    assert_eq!(t.cols(), 80);
    assert_eq!(t.rows(), 25);
    assert_eq!(t.cursor_x(), 0);
    assert_eq!(t.cursor_y(), 0);
    assert_eq!(t.scroll_offset(), 0);
    assert!(t.cursor_visible());
    assert_eq!(t.line_count(), 25);
    assert_eq!(t.get_visible_line(0), Some(""));
    assert_eq!(t.get_visible_line(24), Some(""));
    assert_eq!(t.get_visible_line(25), None);
    assert_eq!(t.get_visible_line(u32::MAX), None);
}

#[test]
fn write_char_appends_and_advances() {
    let mut t = TerminalState::new(10, 3);
    t.write_char('a');
    t.write_char('b');
    assert_eq!(line(&t, 0), "ab");
    assert_eq!(t.cursor_x(), 2);
    assert_eq!(t.cursor_y(), 0);
}

#[test]
fn carriage_return_overwrites_in_place() {
    let mut t = TerminalState::new(10, 3);
    t.write_str("hello");
    t.write_char('\r');
    assert_eq!(t.cursor_x(), 0);
    assert_eq!(t.cursor_y(), 0);
    t.write_str("HE");
    assert_eq!(line(&t, 0), "HEllo");
    assert_eq!(t.cursor_x(), 2);
}

#[test]
fn write_pads_short_line_with_spaces() {
    let mut t = TerminalState::new(10, 3);
    t.write_str("abc");
    t.write_char('\n');
    t.write_str("xyzw");
    // back on a shorter line: the cursor column is kept by backspace only,
    // so shorten the line under the cursor and write beyond its end
    t.backspace();
    t.backspace();
    t.backspace();
    assert_eq!(line(&t, 1), "x");
    assert_eq!(t.cursor_x(), 1);
    t.write_str("12");
    assert_eq!(line(&t, 1), "x12");
}

#[test]
fn wrap_after_cols_characters() {
    let mut t = TerminalState::new(5, 4);
    for (i, c) in "abcde".chars().enumerate() {
        assert_eq!(t.cursor_x() as usize, i);
        assert!(t.cursor_x() <= 4);
        t.write_char(c);
    }
    assert_eq!(t.cursor_x(), 0);
    assert_eq!(t.cursor_y(), 1);
    assert_eq!(line(&t, 0), "abcde");
    assert_eq!(line(&t, 1), "");
}

#[test]
fn wrap_on_last_row_scrolls() {
    let mut t = TerminalState::new(3, 2);
    t.write_str("abc");
    assert_eq!(t.cursor_y(), 1);
    t.write_str("def");
    assert_eq!(t.cursor_x(), 0);
    assert_eq!(t.cursor_y(), 1);
    assert_eq!(t.scroll_offset(), 1);
    assert_eq!(t.line_count(), 3);
    assert_eq!(line(&t, 0), "def");
    assert_eq!(line(&t, 1), "");
}

#[test]
fn zero_columns_wrap_every_character() {
    let mut t = TerminalState::new(0, 2);
    t.write_char('a');
    assert_eq!(t.cursor_x(), 0);
    assert_eq!(t.cursor_y(), 1);
    assert_eq!(line(&t, 0), "a");
}

#[test]
fn scrollback_is_capped() {
    let mut t = TerminalState::new(20, 5);
    let k = 37;
    for i in 0..(MAX_SCROLL_LINES + k) {
        t.write_line(&format!("line {}", i));
    }
    assert_eq!(t.line_count(), MAX_SCROLL_LINES);
    assert_eq!(t.cursor_y(), 4);
    assert_eq!(t.scroll_offset(), MAX_SCROLL_LINES - 5);
    let last = MAX_SCROLL_LINES + k - 1;
    assert_eq!(line(&t, 0), format!("line {}", last - 3));
    assert_eq!(line(&t, 1), format!("line {}", last - 2));
    assert_eq!(line(&t, 2), format!("line {}", last - 1));
    assert_eq!(line(&t, 3), format!("line {}", last));
    assert_eq!(line(&t, 4), "");
}

#[test]
fn eviction_drops_the_oldest_line() {
    let mut t = TerminalState::new(20, 2);
    for i in 0..MAX_SCROLL_LINES {
        t.write_line(&format!("{}", i));
    }
    assert_eq!(t.line_count(), MAX_SCROLL_LINES);
    t.scroll_up(MAX_SCROLL_LINES);
    assert_eq!(t.scroll_offset(), 0);
    assert_eq!(line(&t, 0), "1");
}

#[test]
fn blink_period_is_thirty_ticks() {
    let mut t = TerminalState::new(10, 3);
    let shown = t.cursor_visible();
    for _ in 0..(BLINK_PERIOD - 1) {
        t.tick();
        assert_eq!(t.cursor_visible(), shown);
    }
    t.tick();
    assert_eq!(t.cursor_visible(), !shown);
    for _ in 0..BLINK_PERIOD {
        t.tick();
    }
    assert_eq!(t.cursor_visible(), shown);
}

#[test]
fn tick_changes_nothing_but_the_cursor() {
    let mut t = TerminalState::new(10, 3);
    t.write_str("abc");
    for _ in 0..45 {
        t.tick();
    }
    assert_eq!(line(&t, 0), "abc");
    assert_eq!(t.cursor_x(), 3);
    assert_eq!(t.cursor_y(), 0);
}

#[test]
fn backspace_at_column_zero_is_a_no_op() {
    let mut t = TerminalState::new(10, 3);
    t.write_line("abc");
    assert_eq!(t.cursor_x(), 0);
    assert_eq!(t.cursor_y(), 1);
    t.backspace();
    assert_eq!(t.cursor_x(), 0);
    assert_eq!(t.cursor_y(), 1);
    assert_eq!(line(&t, 0), "abc");
    assert_eq!(line(&t, 1), "");
    t.write_char('\u{8}');
    assert_eq!(t.cursor_x(), 0);
    assert_eq!(t.cursor_y(), 1);
}

#[test]
fn backspace_deletes_the_character_before_the_cursor() {
    let mut t = TerminalState::new(10, 3);
    t.write_str("abc");
    t.backspace();
    assert_eq!(line(&t, 0), "ab");
    assert_eq!(t.cursor_x(), 2);
    t.write_char('\r');
    t.write_char('x');
    t.backspace();
    assert_eq!(line(&t, 0), "b");
    assert_eq!(t.cursor_x(), 0);
}

#[test]
fn backspace_beyond_the_line_only_moves() {
    let mut t = TerminalState::new(10, 3);
    t.write_str("abc");
    t.write_char('\n');
    t.write_str("de");
    t.backspace();
    t.backspace();
    assert_eq!(line(&t, 1), "");
    assert_eq!(line(&t, 0), "abc");
}

#[test]
fn non_ascii_characters_take_one_cell() {
    let mut t = TerminalState::new(10, 3);
    t.write_str("ação");
    assert_eq!(t.cursor_x(), 4);
    t.write_char('\r');
    t.write_str("xy");
    assert_eq!(line(&t, 0), "xyão");
    t.write_str("zw");
    t.backspace();
    assert_eq!(line(&t, 0), "xyz");
}

#[test]
fn clear_resets_buffer_and_cursor() {
    let mut t = TerminalState::new(10, 3);
    for i in 0..10 {
        t.write_line(&format!("{}", i));
    }
    for _ in 0..30 {
        t.tick();
    }
    let shown = t.cursor_visible();
    t.clear();
    assert_eq!(t.line_count(), 3);
    assert_eq!(t.cursor_x(), 0);
    assert_eq!(t.cursor_y(), 0);
    assert_eq!(t.scroll_offset(), 0);
    assert_eq!(line(&t, 0), "");
    assert_eq!(t.cursor_visible(), shown);
}

#[test]
fn scroll_is_clamped() {
    let mut t = TerminalState::new(10, 3);
    for i in 0..10 {
        t.write_line(&format!("{}", i));
    }
    // 3 rows + 8 scrolled lines
    assert_eq!(t.line_count(), 11);
    assert_eq!(t.scroll_offset(), 8);
    let x = t.cursor_x();
    let y = t.cursor_y();
    t.scroll_up(3);
    assert_eq!(t.scroll_offset(), 5);
    assert_eq!(line(&t, 0), "5");
    t.scroll_up(100);
    assert_eq!(t.scroll_offset(), 0);
    t.scroll_down(2);
    assert_eq!(t.scroll_offset(), 2);
    t.scroll_down(usize::MAX);
    assert_eq!(t.scroll_offset(), 8);
    t.scroll_down(1);
    assert_eq!(t.scroll_offset(), 8);
    assert_eq!(t.cursor_x(), x);
    assert_eq!(t.cursor_y(), y);
}

#[test]
fn write_line_is_write_str_and_line_feed() {
    let mut a = TerminalState::new(10, 3);
    let mut b = TerminalState::new(10, 3);
    a.write_line("abc");
    b.write_str("abc\n");
    assert_eq!(line(&a, 0), line(&b, 0));
    assert_eq!(a.cursor_x(), b.cursor_x());
    assert_eq!(a.cursor_y(), b.cursor_y());
}

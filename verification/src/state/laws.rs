//! Theorems about the terminal model: wrapping, the scrollback cap and
//! the blink cycle.

use crate::state::terminal::{
    is_printable, lemma_new_line_wf, lemma_write_char_wf, lemma_write_str_wf, TerminalView,
    BLINK_PERIOD, MAX_SCROLL_LINES,
};
use vstd::prelude::*;

verus! {

/// While fewer than `cols` printable characters have been written from
/// column 0, the cursor stands right behind them on the same row and
/// nothing has scrolled.
pub proof fn lemma_partial_row(v: TerminalView, s: Seq<char>)
    requires
        v.wf(),
        v.cursor_x == 0,
        s.len() < v.cols,
        forall|i: int| 0 <= i < s.len() ==> is_printable(#[trigger] s[i]),
    ensures
        v.write_str(s).wf(),
        v.write_str(s).cols == v.cols,
        v.write_str(s).rows == v.rows,
        v.write_str(s).cursor_x == s.len(),
        v.write_str(s).cursor_y == v.cursor_y,
        v.write_str(s).scroll_offset == v.scroll_offset,
        v.write_str(s).lines.len() == v.lines.len(),
    decreases s.len(),
{
    if s.len() > 0 {
        lemma_partial_row(v, s.drop_last());
        assert(is_printable(s[s.len() - 1]));
    }
}

/// Wrapping: writing exactly `cols` printable characters from column 0
/// leaves the cursor in column 0 of the next row (of the last row again,
/// after scrolling, when it stood there), and after every proper prefix
/// the cursor stands in a column no greater than `cols - 1`.
pub proof fn lemma_full_row_wraps(v: TerminalView, s: Seq<char>)
    requires
        v.wf(),
        v.cols >= 1,
        v.cursor_x == 0,
        s.len() == v.cols,
        forall|i: int| 0 <= i < s.len() ==> is_printable(#[trigger] s[i]),
    ensures
        forall|k: int|
            0 <= k < s.len() ==> (#[trigger] v.write_str(s.take(k))).cursor_x == k && v.write_str(
                s.take(k),
            ).cursor_y == v.cursor_y,
        v.write_str(s).cursor_x == 0,
        v.write_str(s).cursor_y == if v.cursor_y + 1 < v.rows {
            v.cursor_y + 1
        } else {
            v.cursor_y
        },
{
    assert forall|k: int| 0 <= k < s.len() implies (#[trigger] v.write_str(s.take(k))).cursor_x == k
        && v.write_str(s.take(k)).cursor_y == v.cursor_y by {
        lemma_partial_row(v, s.take(k));
    }
    let head = s.drop_last();
    lemma_partial_row(v, head);
    assert(is_printable(s[s.len() - 1]));
    lemma_new_line_wf(v.write_str(head));
}

/// Lines retained plus cursor row: every line feed raises this by one
/// until the buffer is full and the cursor is on the last row.
pub open spec fn fill(v: TerminalView) -> nat {
    v.lines.len() + v.cursor_y
}

/// The value of `fill` once the buffer is full.
pub open spec fn full(v: TerminalView) -> nat {
    (MAX_SCROLL_LINES + v.rows - 1) as nat
}

/// `fill` raised by `n`, but not beyond `full`.
pub open spec fn raised(v: TerminalView, n: nat) -> nat {
    if fill(v) + n <= full(v) {
        fill(v) + n
    } else {
        full(v)
    }
}

proof fn lemma_new_line_fills(v: TerminalView)
    requires
        v.wf(),
        v.rows <= MAX_SCROLL_LINES,
    ensures
        fill(v.new_line()) == raised(v, 1),
        fill(v) <= full(v),
{
}

proof fn lemma_write_char_fills(v: TerminalView, c: char)
    requires
        v.wf(),
        v.rows <= MAX_SCROLL_LINES,
    ensures
        fill(v) <= fill(v.write_char(c)) <= full(v),
{
    lemma_write_char_wf(v, c);
    if c == '\n' {
        lemma_new_line_fills(v);
    } else if is_printable(c) {
        let at = v.cursor_line();
        let placed = TerminalView {
            lines: v.lines.update(at, crate::state::terminal::put_at(v.lines[at], v.cursor_x, c)),
            ..v
        };
        assert(placed.wf());
        lemma_new_line_fills(placed);
    }
}

proof fn lemma_write_str_fills(v: TerminalView, s: Seq<char>)
    requires
        v.wf(),
        v.rows <= MAX_SCROLL_LINES,
    ensures
        fill(v) <= fill(v.write_str(s)) <= full(v),
    decreases s.len(),
{
    if s.len() > 0 {
        lemma_write_str_fills(v, s.drop_last());
        lemma_write_str_wf(v, s.drop_last());
        lemma_write_char_fills(v.write_str(s.drop_last()), s.last());
    }
}

/// Writing lines keeps the invariant and the viewport size, keeps a
/// viewport at the bottom there, and fills the buffer by at least one
/// line each.
pub proof fn lemma_write_lines_fill(v: TerminalView, texts: Seq<Seq<char>>)
    requires
        v.wf(),
        v.rows <= MAX_SCROLL_LINES,
    ensures
        v.write_lines(texts).wf(),
        v.write_lines(texts).rows == v.rows,
        v.write_lines(texts).cols == v.cols,
        v.at_bottom() ==> v.write_lines(texts).at_bottom(),
        raised(v, texts.len()) <= fill(v.write_lines(texts)) <= full(v),
    decreases texts.len(),
{
    if texts.len() > 0 {
        let before = v.write_lines(texts.drop_last());
        lemma_write_lines_fill(v, texts.drop_last());
        lemma_write_str_wf(before, texts.last());
        lemma_write_str_fills(before, texts.last());
        lemma_new_line_wf(before.write_str(texts.last()));
        lemma_new_line_fills(before.write_str(texts.last()));
    }
}

/// Scrollback cap: once at least `MAX_SCROLL_LINES` lines have been
/// written to a terminal that is no taller than the cap, exactly
/// `MAX_SCROLL_LINES` lines are retained and the cursor is on the last
/// row; if the viewport was at the bottom before, it still is, so its
/// rows are the newest `rows` lines of the buffer.
pub proof fn lemma_scrollback_cap(v: TerminalView, texts: Seq<Seq<char>>)
    requires
        v.wf(),
        v.rows <= MAX_SCROLL_LINES,
        texts.len() >= MAX_SCROLL_LINES,
    ensures
        v.write_lines(texts).lines.len() == MAX_SCROLL_LINES,
        v.write_lines(texts).cursor_y == v.rows - 1,
        v.at_bottom() ==> forall|r: nat|
            r < v.rows ==> #[trigger] v.write_lines(texts).visible_line(r) == Some(
                v.write_lines(texts).lines[MAX_SCROLL_LINES - v.rows + r],
            ),
{
    lemma_write_lines_fill(v, texts);
}

/// The cursor stands at the start of a blank line with only blank lines
/// below it, and the viewport shows the newest lines: the state of a
/// terminal that is new or cleared, and the state after every line
/// written to such a terminal.
pub open spec fn ready(v: TerminalView) -> bool {
    &&& v.at_bottom()
    &&& v.cursor_x == 0
    &&& forall|i: int| v.cursor_line() <= i < v.lines.len() ==> (#[trigger] v.lines[i]).len() == 0
}

/// A new terminal is valid and ready.
pub proof fn lemma_fresh_is_ready(cols: nat, rows: nat)
    requires
        1 <= rows <= u32::MAX,
        cols <= u32::MAX,
    ensures
        TerminalView::fresh(cols, rows).wf(),
        ready(TerminalView::fresh(cols, rows)),
{
}

/// A cleared terminal is valid and ready.
pub proof fn lemma_clear_is_ready(v: TerminalView)
    requires
        v.wf(),
    ensures
        v.clear().wf(),
        ready(v.clear()),
{
}

/// A text that takes one row: printable characters, fewer than the
/// viewport has columns.
pub open spec fn fits_row(text: Seq<char>, cols: nat) -> bool {
    &&& text.len() < cols
    &&& forall|i: int| 0 <= i < text.len() ==> is_printable(#[trigger] text[i])
}

/// A text that fits the row, written at the start of a blank line,
/// becomes that line; nothing else changes but the cursor column.
pub proof fn lemma_write_on_blank_line(v: TerminalView, text: Seq<char>)
    requires
        v.wf(),
        v.cursor_x == 0,
        v.lines[v.cursor_line()].len() == 0,
        fits_row(text, v.cols),
    ensures
        v.write_str(text) == (TerminalView {
            lines: v.lines.update(v.cursor_line(), text),
            cursor_x: text.len(),
            ..v
        }),
    decreases text.len(),
{
    let at = v.cursor_line();
    if text.len() == 0 {
        assert(v.lines[at] =~= text);
        assert(v.lines.update(at, text) =~= v.lines);
    } else {
        let head = text.drop_last();
        assert(fits_row(head, v.cols)) by {
            assert forall|i: int| 0 <= i < head.len() implies is_printable(#[trigger] head[i]) by {
                assert(head[i] == text[i]);
            }
        }
        lemma_write_on_blank_line(v, head);
        let w = v.write_str(head);
        let c = text.last();
        assert(is_printable(text[text.len() - 1]));
        assert(w.lines[at] == head);
        assert(crate::state::terminal::put_at(head, head.len(), c) =~= text);
        assert(w.lines.update(at, text) =~= v.lines.update(at, text));
    }
}

/// One line written to a ready terminal: the terminal is ready again,
/// the text is the line right above the cursor, and the lines above it
/// are the lines that stood above the cursor before.
pub proof fn lemma_write_line_when_ready(v: TerminalView, text: Seq<char>)
    requires
        v.wf(),
        ready(v),
        fits_row(text, v.cols),
    ensures
        v.write_line(text).wf(),
        ready(v.write_line(text)),
        v.write_line(text).same_size(v),
        v.write_line(text).cursor_line() >= 1,
        v.write_line(text).cursor_line() <= v.cursor_line() + 1,
        v.write_line(text).lines[v.write_line(text).cursor_line() - 1] == text,
        forall|d: int|
            1 <= d < v.write_line(text).cursor_line() ==> #[trigger] v.write_line(text).lines[v.write_line(
                text,
            ).cursor_line() - 1 - d] == v.lines[v.cursor_line() - d],
{
    let at = v.cursor_line();
    assert(v.lines[at].len() == 0);
    lemma_write_on_blank_line(v, text);
    lemma_write_str_wf(v, text);
    let written = v.write_str(text);
    lemma_new_line_wf(written);
    let w = written.new_line();
    assert(w == v.write_line(text));
    assert(written.lines[at] == text);
    assert forall|i: int| w.cursor_line() <= i < w.lines.len() implies (#[trigger] w.lines[i]).len()
        == 0 by {
        if v.cursor_y + 1 < v.rows {
            assert(w.lines[i] == v.lines[i]);
        }
    }
    assert forall|d: int| 1 <= d < w.cursor_line() implies #[trigger] w.lines[w.cursor_line() - 1
        - d] == v.lines[at - d] by {
        assert(written.lines[at - d] == v.lines[at - d]);
    }
}

/// Lines written to a ready terminal stand above the cursor, newest
/// lowest, as far up as the buffer reaches.
pub proof fn lemma_written_lines_stand(v: TerminalView, texts: Seq<Seq<char>>)
    requires
        v.wf(),
        ready(v),
        forall|k: int| 0 <= k < texts.len() ==> fits_row(#[trigger] texts[k], v.cols),
    ensures
        v.write_lines(texts).wf(),
        ready(v.write_lines(texts)),
        v.write_lines(texts).same_size(v),
        forall|j: int|
            0 <= j < texts.len() && j < v.write_lines(texts).cursor_line() ==> #[trigger] v.write_lines(
                texts,
            ).lines[v.write_lines(texts).cursor_line() - 1 - j] == texts[texts.len() - 1 - j],
    decreases texts.len(),
{
    if texts.len() > 0 {
        let init = texts.drop_last();
        assert forall|k: int| 0 <= k < init.len() implies fits_row(#[trigger] init[k], v.cols) by {
            assert(init[k] == texts[k]);
        }
        lemma_written_lines_stand(v, init);
        let before = v.write_lines(init);
        assert(fits_row(texts[texts.len() - 1], v.cols));
        lemma_write_line_when_ready(before, texts.last());
        let w = v.write_lines(texts);
        assert forall|j: int| 0 <= j < texts.len() && j < w.cursor_line() implies #[trigger] w.lines[w.cursor_line()
            - 1 - j] == texts[texts.len() - 1 - j] by {
            if j >= 1 {
                assert(w.lines[w.cursor_line() - 1 - j] == before.lines[before.cursor_line() - j]);
                assert(before.lines[before.cursor_line() - 1 - (j - 1)] == init[init.len() - 1 - (j
                    - 1)]);
            }
        }
    }
}

/// The newest lines remain visible: after at least `MAX_SCROLL_LINES`
/// lines that each fit a row have been written to a ready terminal no
/// taller than the cap, the viewport shows the last `rows - 1` of them,
/// in order, above the blank line of the cursor.
pub proof fn lemma_recent_lines_visible(v: TerminalView, texts: Seq<Seq<char>>)
    requires
        v.wf(),
        ready(v),
        v.rows <= MAX_SCROLL_LINES,
        texts.len() >= MAX_SCROLL_LINES,
        forall|k: int| 0 <= k < texts.len() ==> fits_row(#[trigger] texts[k], v.cols),
    ensures
        v.write_lines(texts).lines.len() == MAX_SCROLL_LINES,
        forall|r: nat|
            r + 1 < v.rows ==> #[trigger] v.write_lines(texts).visible_line(r) == Some(
                texts[texts.len() - v.rows + 1 + r],
            ),
        v.write_lines(texts).visible_line((v.rows - 1) as nat) == Some(Seq::<char>::empty()),
{
    lemma_scrollback_cap(v, texts);
    lemma_written_lines_stand(v, texts);
    let w = v.write_lines(texts);
    let at = w.cursor_line();
    assert(w.lines[at].len() == 0);
    assert(w.lines[at] =~= Seq::<char>::empty());
    assert forall|r: nat| r + 1 < v.rows implies #[trigger] w.visible_line(r) == Some(
        texts[texts.len() - v.rows + 1 + r],
    ) by {
        let j = v.rows - 2 - r;
        assert(w.lines[at - 1 - j] == texts[texts.len() - 1 - j]);
    }
}

/// The blink timer in closed form: after `n` ticks the counter has
/// advanced modulo the period and the cursor has toggled once per
/// completed period; nothing else has changed.
pub proof fn lemma_ticks(v: TerminalView, n: nat)
    requires
        v.blink_counter < BLINK_PERIOD,
    ensures
        v.ticks(n).blink_counter == (v.blink_counter + n) % (BLINK_PERIOD as nat),
        v.ticks(n).cursor_visible == (v.cursor_visible == (((v.blink_counter + n) / (
        BLINK_PERIOD as nat)) % 2 == 0)),
        v.ticks(n) == (TerminalView {
            blink_counter: v.ticks(n).blink_counter,
            cursor_visible: v.ticks(n).cursor_visible,
            ..v
        }),
    decreases n,
{
    if n > 0 {
        lemma_ticks(v, (n - 1) as nat);
    }
}

/// Blink period: counted from a toggle, 29 ticks and fewer leave the
/// cursor's visibility as it was, the 30th tick flips it and the 60th
/// restores it.
pub proof fn lemma_blink_period(v: TerminalView)
    requires
        v.blink_counter == 0,
    ensures
        forall|n: nat| n < BLINK_PERIOD ==> (#[trigger] v.ticks(n)).cursor_visible == v.cursor_visible,
        v.ticks(BLINK_PERIOD as nat).cursor_visible == !v.cursor_visible,
        v.ticks(2 * BLINK_PERIOD as nat).cursor_visible == v.cursor_visible,
{
    assert forall|n: nat| n < BLINK_PERIOD implies (#[trigger] v.ticks(n)).cursor_visible
        == v.cursor_visible by {
        lemma_ticks(v, n);
    }
    lemma_ticks(v, BLINK_PERIOD as nat);
    lemma_ticks(v, 2 * BLINK_PERIOD as nat);
}

/// Writing `a` and then `b` is writing their concatenation.
pub proof fn lemma_write_str_concat(v: TerminalView, a: Seq<char>, b: Seq<char>)
    ensures
        v.write_str(a + b) == v.write_str(a).write_str(b),
    decreases b.len(),
{
    if b.len() == 0 {
        assert(a + b =~= a);
    } else {
        assert((a + b).drop_last() =~= a + b.drop_last());
        assert((a + b).last() == b.last());
        lemma_write_str_concat(v, a, b.drop_last());
    }
}

/// A line feed is the character `'\n'`: writing a line is writing the
/// text with `'\n'` appended.
pub proof fn lemma_write_line_is_write_str(v: TerminalView, s: Seq<char>)
    ensures
        v.write_line(s) == v.write_str(s.push('\n')),
{
    assert(s.push('\n').drop_last() =~= s);
}

/// Backspace boundary: in column 0 backspace changes nothing.
pub proof fn lemma_backspace_at_line_start(v: TerminalView)
    requires
        v.cursor_x == 0,
    ensures
        v.backspace() == v,
{
}

} // verus!

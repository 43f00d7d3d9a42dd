//! The text buffer and cursor state machine of the terminal.
//!
//! [`TerminalView`] is the mathematical model: every operation of
//! [`TerminalState`] is specified as a function from view to view.

use crate::text::push_char;
use vstd::prelude::*;

verus! {

/// Upper bound on retained lines; beyond it the oldest line is evicted.
pub const MAX_SCROLL_LINES: usize = 1000;

/// Number of ticks between two toggles of the cursor's visibility.
pub const BLINK_PERIOD: u32 = 30;

/// Backspace, as a character.
pub const BACKSPACE: char = '\u{8}';

/// Characters that `write_char` stores in a cell instead of interpreting.
pub open spec fn is_printable(c: char) -> bool {
    c != '\n' && c != '\r' && c != BACKSPACE
}

/// `line` with `c` stored in column `x`: overwritten in place when the
/// line reaches that far, else appended after padding with spaces.
pub open spec fn put_at(line: Seq<char>, x: nat, c: char) -> Seq<char> {
    if x < line.len() {
        line.update(x as int, c)
    } else {
        (line + Seq::new((x - line.len()) as nat, |i: int| ' ')).push(c)
    }
}

/// Mathematical model of a terminal.
pub struct TerminalView {
    /// Viewport width in cells.
    pub cols: nat,
    /// Viewport height in cells.
    pub rows: nat,
    /// Retained lines, oldest first.
    pub lines: Seq<Seq<char>>,
    /// Cursor column.
    pub cursor_x: nat,
    /// Cursor row, relative to the first visible line.
    pub cursor_y: nat,
    /// Whether the blinking cursor is currently shown.
    pub cursor_visible: bool,
    /// Index in `lines` of the first visible row.
    pub scroll_offset: nat,
    /// Ticks since the last toggle of `cursor_visible`.
    pub blink_counter: nat,
}

impl TerminalView {
    /// The invariant of the buffer.
    pub open spec fn wf(self) -> bool {
        &&& 1 <= self.rows <= u32::MAX
        &&& self.cols <= u32::MAX
        &&& self.cursor_x < self.width()
        &&& self.cursor_y < self.rows
        &&& forall|i: int| 0 <= i < self.lines.len() ==> (#[trigger] self.lines[i]).len() <= self.width()
        &&& self.scroll_offset + self.rows <= self.lines.len()
        &&& self.lines.len() <= self.capacity()
        &&& self.blink_counter < BLINK_PERIOD
    }

    /// Most characters a line ever holds: the viewport width, and one
    /// where the viewport has no columns.
    pub open spec fn width(self) -> nat {
        if self.cols == 0 {
            1
        } else {
            self.cols
        }
    }

    /// Most lines the buffer ever retains: the cap, or the viewport height
    /// where that is larger.
    pub open spec fn capacity(self) -> nat {
        if self.rows > MAX_SCROLL_LINES {
            self.rows
        } else {
            MAX_SCROLL_LINES as nat
        }
    }

    /// `other` has the viewport size of this terminal.
    pub open spec fn same_size(self, other: Self) -> bool {
        self.cols == other.cols && self.rows == other.rows
    }

    /// The viewport shows the newest lines (nobody scrolled back).
    pub open spec fn at_bottom(self) -> bool {
        self.scroll_offset + self.rows == self.lines.len()
    }

    /// Index in `lines` of the line under the cursor.
    pub open spec fn cursor_line(self) -> int {
        (self.scroll_offset + self.cursor_y) as int
    }

    /// A terminal right after construction.
    pub open spec fn fresh(cols: nat, rows: nat) -> Self {
        TerminalView {
            cols,
            rows,
            lines: Seq::new(rows, |i: int| Seq::<char>::empty()),
            cursor_x: 0,
            cursor_y: 0,
            cursor_visible: true,
            scroll_offset: 0,
            blink_counter: 0,
        }
    }

    /// Line feed: column 0 of the next row; at the last row the view
    /// scrolls by one appended blank line, evicting the oldest line once
    /// the cap is exceeded.
    pub open spec fn new_line(self) -> Self {
        if self.cursor_y + 1 < self.rows {
            TerminalView { cursor_x: 0, cursor_y: self.cursor_y + 1, ..self }
        } else {
            let grown = self.lines.push(Seq::empty());
            let bottom = (self.rows - 1) as nat;
            if grown.len() > MAX_SCROLL_LINES {
                TerminalView { cursor_x: 0, cursor_y: bottom, lines: grown.drop_first(), ..self }
            } else {
                TerminalView {
                    cursor_x: 0,
                    cursor_y: bottom,
                    lines: grown,
                    scroll_offset: self.scroll_offset + 1,
                    ..self
                }
            }
        }
    }

    /// Backspace: steps one column left and deletes the character there,
    /// if any; nothing at column 0.
    pub open spec fn backspace(self) -> Self {
        if self.cursor_x > 0 {
            let x = (self.cursor_x - 1) as nat;
            let line = self.lines[self.cursor_line()];
            if x < line.len() {
                TerminalView {
                    cursor_x: x,
                    lines: self.lines.update(self.cursor_line(), line.remove(x as int)),
                    ..self
                }
            } else {
                TerminalView { cursor_x: x, ..self }
            }
        } else {
            self
        }
    }

    /// Stores the printable `c` under the cursor and advances, wrapping
    /// to the next row at the right edge.
    pub open spec fn put(self, c: char) -> Self {
        let at = self.cursor_line();
        let placed = TerminalView {
            lines: self.lines.update(at, put_at(self.lines[at], self.cursor_x, c)),
            ..self
        };
        if self.cursor_x + 1 >= self.cols {
            placed.new_line()
        } else {
            TerminalView { cursor_x: self.cursor_x + 1, ..placed }
        }
    }

    /// One input character: line feed, carriage return and backspace are
    /// interpreted, everything else is stored.
    pub open spec fn write_char(self, c: char) -> Self {
        if c == '\n' {
            self.new_line()
        } else if c == '\r' {
            TerminalView { cursor_x: 0, ..self }
        } else if c == BACKSPACE {
            self.backspace()
        } else {
            self.put(c)
        }
    }

    /// The characters of `s`, one after the other.
    pub open spec fn write_str(self, s: Seq<char>) -> Self
        decreases s.len(),
    {
        if s.len() == 0 {
            self
        } else {
            self.write_str(s.drop_last()).write_char(s.last())
        }
    }

    /// `s` followed by a line feed.
    pub open spec fn write_line(self, s: Seq<char>) -> Self {
        self.write_str(s).new_line()
    }

    /// Each of `texts` written as a line, in order.
    pub open spec fn write_lines(self, texts: Seq<Seq<char>>) -> Self
        decreases texts.len(),
    {
        if texts.len() == 0 {
            self
        } else {
            self.write_lines(texts.drop_last()).write_line(texts.last())
        }
    }

    /// Full reset of buffer, cursor and scroll position; the blink state
    /// is kept.
    pub open spec fn clear(self) -> Self {
        TerminalView {
            lines: Seq::new(self.rows, |i: int| Seq::<char>::empty()),
            cursor_x: 0,
            cursor_y: 0,
            scroll_offset: 0,
            ..self
        }
    }

    /// One frame of the blink timer.
    pub open spec fn tick(self) -> Self {
        if self.blink_counter + 1 >= BLINK_PERIOD {
            TerminalView { cursor_visible: !self.cursor_visible, blink_counter: 0, ..self }
        } else {
            TerminalView { blink_counter: self.blink_counter + 1, ..self }
        }
    }

    /// `n` frames of the blink timer.
    pub open spec fn ticks(self, n: nat) -> Self
        decreases n,
    {
        if n == 0 {
            self
        } else {
            self.ticks((n - 1) as nat).tick()
        }
    }

    /// The line shown in viewport row `row`, if the buffer reaches it.
    pub open spec fn visible_line(self, row: nat) -> Option<Seq<char>> {
        if self.scroll_offset + row < self.lines.len() {
            Some(self.lines[(self.scroll_offset + row) as int])
        } else {
            None
        }
    }

    /// Largest scroll offset that still fills the viewport.
    pub open spec fn max_scroll(self) -> nat {
        if self.lines.len() >= self.rows {
            (self.lines.len() - self.rows) as nat
        } else {
            0
        }
    }

    /// Scrolls back by `n` lines, stopping at the oldest line.
    pub open spec fn scroll_up(self, n: nat) -> Self {
        TerminalView {
            scroll_offset: if self.scroll_offset >= n {
                (self.scroll_offset - n) as nat
            } else {
                0
            },
            ..self
        }
    }

    /// Scrolls forward by `n` lines, stopping where the viewport ends
    /// with the newest line.
    pub open spec fn scroll_down(self, n: nat) -> Self {
        TerminalView {
            scroll_offset: if self.scroll_offset + n <= self.max_scroll() {
                self.scroll_offset + n
            } else {
                self.max_scroll()
            },
            ..self
        }
    }
}

/// Line feed keeps the invariant, and a viewport at the bottom stays there.
pub proof fn lemma_new_line_wf(v: TerminalView)
    requires
        v.wf(),
    ensures
        v.new_line().wf(),
        v.new_line().cols == v.cols,
        v.new_line().rows == v.rows,
        v.new_line().cursor_x == 0,
        v.at_bottom() ==> v.new_line().at_bottom(),
{
}

/// Every input character keeps the invariant and the viewport size, and
/// leaves the cursor left of the right edge of a viewport that has columns.
pub proof fn lemma_write_char_wf(v: TerminalView, c: char)
    requires
        v.wf(),
    ensures
        v.write_char(c).wf(),
        v.write_char(c).cols == v.cols,
        v.write_char(c).rows == v.rows,
        v.at_bottom() ==> v.write_char(c).at_bottom(),
        is_printable(c) && v.cols > 0 ==> v.write_char(c).cursor_x < v.cols,
{
    if is_printable(c) {
        let at = v.cursor_line();
        let placed = TerminalView {
            lines: v.lines.update(at, put_at(v.lines[at], v.cursor_x, c)),
            ..v
        };
        assert(placed.wf());
        lemma_new_line_wf(placed);
    } else if c == '\n' {
        lemma_new_line_wf(v);
    }
}

/// Writing a string keeps the invariant and the viewport size.
pub proof fn lemma_write_str_wf(v: TerminalView, s: Seq<char>)
    requires
        v.wf(),
    ensures
        v.write_str(s).wf(),
        v.write_str(s).cols == v.cols,
        v.write_str(s).rows == v.rows,
        v.at_bottom() ==> v.write_str(s).at_bottom(),
    decreases s.len(),
{
    if s.len() > 0 {
        lemma_write_str_wf(v, s.drop_last());
        lemma_write_char_wf(v.write_str(s.drop_last()), s.last());
    }
}

/// The terminal: a scrolling buffer of text lines with a cursor.
pub struct TerminalState {
    cols: u32,
    rows: u32,
    lines: Vec<String>,
    cursor_x: u32,
    cursor_y: u32,
    cursor_visible: bool,
    scroll_offset: usize,
    cursor_blink_counter: u32,
}

impl View for TerminalState {
    type V = TerminalView;

    closed spec fn view(&self) -> TerminalView {
        TerminalView {
            cols: self.cols as nat,
            rows: self.rows as nat,
            lines: Seq::new(self.lines@.len(), |i: int| self.lines@[i]@),
            cursor_x: self.cursor_x as nat,
            cursor_y: self.cursor_y as nat,
            cursor_visible: self.cursor_visible,
            scroll_offset: self.scroll_offset as nat,
            blink_counter: self.cursor_blink_counter as nat,
        }
    }
}

/// `line` with `c` stored in column `x`.
fn place(line: &String, x: usize, c: char) -> (out: String)
    ensures
        out@ == put_at(line@, x as nat, c),
{
    let s = line.as_str();
    let len = s.unicode_len();
    if x < len {
        let mut out = String::from_str(s.substring_char(0, x));
        push_char(&mut out, c);
        out.append(s.substring_char(x + 1, len));
        proof {
            assert(out@ =~= line@.update(x as int, c));
        }
        out
    } else {
        let mut out = line.clone();
        let mut n: usize = len;
        while n < x
            invariant
                len <= n <= x,
                len == line@.len(),
                out@ == line@ + Seq::new((n - len) as nat, |i: int| ' '),
            decreases x - n,
        {
            push_char(&mut out, ' ');
            n += 1;
            proof {
                assert(out@ =~= line@ + Seq::new((n - len) as nat, |i: int| ' '));
            }
        }
        push_char(&mut out, c);
        out
    }
}

/// `line` without the character in column `x`.
fn without(line: &String, x: usize) -> (out: String)
    requires
        x < line@.len(),
    ensures
        out@ == line@.remove(x as int),
{
    let s = line.as_str();
    let len = s.unicode_len();
    let mut out = String::from_str(s.substring_char(0, x));
    out.append(s.substring_char(x + 1, len));
    proof {
        assert(out@ =~= line@.remove(x as int));
    }
    out
}

impl TerminalState {
    /// The invariant of the buffer; every operation keeps it.
    pub open spec fn wf(&self) -> bool {
        self@.wf()
    }

    /// A terminal of `cols` by `rows` cells: blank, cursor at the origin
    /// and shown.
    pub fn new(cols: u32, rows: u32) -> (t: Self)
        requires
            rows >= 1,
        ensures
            t@ == TerminalView::fresh(cols as nat, rows as nat),
            t.wf(),
    {
        let mut lines: Vec<String> = Vec::new();
        let mut i: u32 = 0;
        while i < rows
            invariant
                i <= rows,
                lines@.len() == i,
                forall|k: int| 0 <= k < i ==> (#[trigger] lines@[k])@ == Seq::<char>::empty(),
            decreases rows - i,
        {
            lines.push(String::new());
            i += 1;
        }
        let t = TerminalState {
            cols,
            rows,
            lines,
            cursor_x: 0,
            cursor_y: 0,
            cursor_visible: true,
            scroll_offset: 0,
            cursor_blink_counter: 0,
        };
        proof {
            assert(t@.lines =~= TerminalView::fresh(cols as nat, rows as nat).lines);
        }
        t
    }

    /// Viewport width in cells.
    pub fn cols(&self) -> (n: u32)
        ensures
            n == self@.cols,
    {
        self.cols
    }

    /// Viewport height in cells.
    pub fn rows(&self) -> (n: u32)
        ensures
            n == self@.rows,
    {
        self.rows
    }

    /// Cursor column.
    pub fn cursor_x(&self) -> (x: u32)
        ensures
            x == self@.cursor_x,
    {
        self.cursor_x
    }

    /// Cursor row, relative to the first visible line.
    pub fn cursor_y(&self) -> (y: u32)
        ensures
            y == self@.cursor_y,
    {
        self.cursor_y
    }

    /// Whether the blinking cursor is currently shown.
    pub fn cursor_visible(&self) -> (shown: bool)
        ensures
            shown == self@.cursor_visible,
    {
        self.cursor_visible
    }

    /// Index of the first visible line.
    pub fn scroll_offset(&self) -> (n: usize)
        ensures
            n == self@.scroll_offset,
    {
        self.scroll_offset
    }

    /// Number of retained lines.
    pub fn line_count(&self) -> (n: usize)
        ensures
            n == self@.lines.len(),
    {
        self.lines.len()
    }

    /// Writes one character at the cursor.
    pub fn write_char(&mut self, c: char)
        requires
            old(self).wf(),
        ensures
            final(self)@ == old(self)@.write_char(c),
            final(self).wf(),
            final(self)@.same_size(old(self)@),
    {
        proof {
            lemma_write_char_wf(self@, c);
        }
        if c == '\n' {
            self.new_line();
        } else if c == '\r' {
            self.cursor_x = 0;
        } else if c == BACKSPACE {
            self.backspace();
        } else {
            let ghost before = self@;
            let at = self.scroll_offset + self.cursor_y as usize;
            let line = place(&self.lines[at], self.cursor_x as usize, c);
            self.lines.set(at, line);
            proof {
                assert(self@.lines =~= before.lines.update(
                    at as int,
                    put_at(before.lines[at as int], before.cursor_x, c),
                ));
            }
            if self.cols == 0 || self.cursor_x >= self.cols - 1 {
                self.new_line();
            } else {
                self.cursor_x += 1;
            }
        }
    }

    /// Writes the characters of `s` in order.
    pub fn write_str(&mut self, s: &str)
        requires
            old(self).wf(),
        ensures
            final(self)@ == old(self)@.write_str(s@),
            final(self).wf(),
            final(self)@.same_size(old(self)@),
    {
        let ghost start = self@;
        for c in it: s.chars()
            invariant
                it.seq() == s@,
                start.wf(),
                self.wf(),
                self@.same_size(start),
                self@ == start.write_str(s@.take(it.index() as int)),
        {
            proof {
                assert(s@.take(it.index() + 1).drop_last() =~= s@.take(it.index() as int));
            }
            self.write_char(c);
        }
        proof {
            assert(s@.take(s@.len() as int) =~= s@);
        }
    }

    /// Writes `s` followed by a line feed.
    pub fn write_line(&mut self, s: &str)
        requires
            old(self).wf(),
        ensures
            final(self)@ == old(self)@.write_line(s@),
            final(self).wf(),
            final(self)@.same_size(old(self)@),
    {
        self.write_str(s);
        self.new_line();
    }

    fn new_line(&mut self)
        requires
            old(self).wf(),
        ensures
            final(self)@ == old(self)@.new_line(),
            final(self).wf(),
            final(self)@.same_size(old(self)@),
    {
        let ghost before = self@;
        proof {
            lemma_new_line_wf(before);
        }
        self.cursor_x = 0;
        if self.cursor_y + 1 < self.rows {
            self.cursor_y += 1;
        } else {
            self.cursor_y = self.rows - 1;
            self.lines.push(String::new());
            if self.lines.len() > MAX_SCROLL_LINES {
                self.lines.remove(0);
                proof {
                    assert(self@.lines =~= before.lines.push(Seq::empty()).drop_first());
                }
            } else {
                self.scroll_offset += 1;
                proof {
                    assert(self@.lines =~= before.lines.push(Seq::empty()));
                }
            }
        }
    }

    /// Deletes the character left of the cursor. At column 0 nothing
    /// changes: the cursor never moves to the previous line.
    pub fn backspace(&mut self)
        requires
            old(self).wf(),
        ensures
            final(self)@ == old(self)@.backspace(),
            final(self).wf(),
            final(self)@.same_size(old(self)@),
            old(self)@.cursor_x == 0 ==> final(self)@ == old(self)@,
    {
        let ghost before = self@;
        if self.cursor_x > 0 {
            self.cursor_x -= 1;
            let at = self.scroll_offset + self.cursor_y as usize;
            let x = self.cursor_x as usize;
            if x < self.lines[at].as_str().unicode_len() {
                let line = without(&self.lines[at], x);
                self.lines.set(at, line);
                proof {
                    assert(self@.lines =~= before.lines.update(
                        at as int,
                        before.lines[at as int].remove(x as int),
                    ));
                }
            } else {
                proof {
                    assert(self@.lines =~= before.lines);
                }
            }
        }
    }

    /// Resets the buffer to blank lines, the cursor to the origin and the
    /// scroll position to the top.
    pub fn clear(&mut self)
        requires
            old(self).wf(),
        ensures
            final(self)@ == old(self)@.clear(),
            final(self).wf(),
            final(self)@.same_size(old(self)@),
    {
        self.lines.clear();
        let mut i: u32 = 0;
        while i < self.rows
            invariant
                i <= self.rows,
                self.rows == old(self).rows,
                self.cols == old(self).cols,
                self.cursor_visible == old(self).cursor_visible,
                self.cursor_blink_counter == old(self).cursor_blink_counter,
                self.lines@.len() == i,
                forall|k: int| 0 <= k < i ==> (#[trigger] self.lines@[k])@ == Seq::<char>::empty(),
            decreases self.rows - i,
        {
            self.lines.push(String::new());
            i += 1;
        }
        self.cursor_x = 0;
        self.cursor_y = 0;
        self.scroll_offset = 0;
        proof {
            assert(self@.lines =~= old(self)@.clear().lines);
        }
    }

    /// Advances the blink timer by one frame; every `BLINK_PERIOD`-th
    /// frame toggles the cursor's visibility. Nothing else changes.
    pub fn tick(&mut self)
        requires
            old(self).wf(),
        ensures
            final(self)@ == old(self)@.tick(),
            final(self).wf(),
            final(self)@.same_size(old(self)@),
    {
        self.cursor_blink_counter += 1;
        if self.cursor_blink_counter >= BLINK_PERIOD {
            self.cursor_visible = !self.cursor_visible;
            self.cursor_blink_counter = 0;
        }
    }

    /// The line shown in viewport row `row` (0 is the top), or `None`
    /// where the buffer does not reach that far.
    pub fn get_visible_line(&self, row: u32) -> (line: Option<&str>)
        ensures
            match line {
                Some(s) => self@.visible_line(row as nat) == Some(s@),
                None => self@.visible_line(row as nat) is None,
            },
    {
        let count = self.lines.len();
        match self.scroll_offset.checked_add(row as usize) {
            Some(at) => {
                if at < count {
                    let s = self.lines[at].as_str();
                    assert(self@.lines[at as int] == s@);
                    Some(s)
                } else {
                    None
                }
            },
            None => None,
        }
    }

    /// Scrolls back by `lines`, stopping at the oldest line. The cursor
    /// does not move.
    pub fn scroll_up(&mut self, lines: usize)
        requires
            old(self).wf(),
        ensures
            final(self)@ == old(self)@.scroll_up(lines as nat),
            final(self).wf(),
            final(self)@.same_size(old(self)@),
    {
        if self.scroll_offset >= lines {
            self.scroll_offset -= lines;
        } else {
            self.scroll_offset = 0;
        }
    }

    /// Scrolls forward by `lines`, stopping where the viewport ends with
    /// the newest line. The cursor does not move.
    pub fn scroll_down(&mut self, lines: usize)
        requires
            old(self).wf(),
        ensures
            final(self)@ == old(self)@.scroll_down(lines as nat),
            final(self).wf(),
            final(self)@.same_size(old(self)@),
    {
        let max_scroll = self.lines.len() - self.rows as usize;
        self.scroll_offset = match self.scroll_offset.checked_add(lines) {
            Some(target) => if target <= max_scroll {
                target
            } else {
                max_scroll
            },
            None => max_scroll,
        };
    }
}

} // verus!

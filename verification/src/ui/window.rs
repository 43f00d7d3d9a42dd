//! The terminal window: buffer, shell, decorations and renderer behind
//! one state machine that takes input events and system replies, and
//! draws itself.

use crate::render::canvas::{Canvas, DrawOp};
use crate::render::colors;
use crate::render::font::{no_glyphs, BitFont, FontView, CHAR_HEIGHT, CHAR_WIDTH};
use crate::render::text::{cells, lemma_cells_prefix, string_ops, TextRenderer};
use crate::shell::commands::dispatch::{execute, resumed, Effect};
use crate::shell::commands::fs::byte_len;
use crate::shell::commands::types::{
    ReplyView, ResultView, Step, StepView, SysReply, SysRequest, TaskView,
};
use crate::shell::commands::{execute_command, resume, CommandResult, Task};
use crate::shell::context::{initial_context, ContextView, ShellContext};
use crate::state::terminal::{TerminalState, TerminalView};
use crate::text::push_char;
use crate::ui::decorations::{
    WindowDecorations, BORDER_WIDTH, BUTTON_WIDTH, CONTENT_PADDING, TITLE_BAR_HEIGHT,
};
use crate::ui::event::{Event, Key};
use vstd::prelude::*;
use vstd::string::StringSliceAdditionalSpecFns;
use vstd::utf8::encode_utf8;

verus! {

/// Title of the window.
pub const WINDOW_TITLE: &'static str = "Terminal";

/// What a new terminal shows before its first prompt.
pub const WELCOME_TEXT: &'static str = "RedstoneOS Terminal v0.2.0
==========================

Bem-vindo ao terminal do RedstoneOS!
Digite 'help' para ver os comandos disponiveis.

";

/// Least width of a window: room for border and padding.
pub const MIN_WIDTH: u32 = 10;

/// Least height of a window: room for title bar, border, padding and
/// one row of text.
pub const MIN_HEIGHT: u32 = 53;

/// Left edge of the content.
pub const CONTENT_X: u32 = 5;

/// Top edge of the content.
pub const CONTENT_Y: u32 = 32;

/// Mathematical model of a terminal window.
pub struct WindowView {
    /// The text buffer.
    pub state: TerminalView,
    /// The shell context.
    pub ctx: ContextView,
    /// Width of the window in pixels.
    pub width: nat,
    /// Height of the window in pixels.
    pub height: nat,
    /// The font that text is drawn with.
    pub font: FontView,
    /// Whether the window has the focus.
    pub active: bool,
    /// Whether shift is held.
    pub shift: bool,
    /// Whether the session is to end.
    pub should_close: bool,
    /// Whether the window is to be drawn again.
    pub dirty: bool,
    /// The command line typed so far.
    pub input: Seq<char>,
    /// Length of the last prompt in bytes.
    pub prompt_pos: nat,
    /// The command that waits for the operating system, if any.
    pub pending: Option<TaskView>,
}

impl WindowView {
    /// Width of the content area.
    pub open spec fn content_width(self) -> int {
        self.width - 2 * BORDER_WIDTH - 2 * CONTENT_PADDING
    }

    /// Height of the content area.
    pub open spec fn content_height(self) -> int {
        self.height - TITLE_BAR_HEIGHT - BORDER_WIDTH - 2 * CONTENT_PADDING
    }

    /// The invariant of the window: the parts are valid, the window has
    /// room for one row of text, and the viewport fills the content area
    /// with whole cells.
    pub open spec fn wf(self) -> bool {
        &&& self.state.wf()
        &&& self.ctx.wf()
        &&& MIN_WIDTH <= self.width <= u32::MAX
        &&& MIN_HEIGHT <= self.height <= u32::MAX
        &&& self.state.cols == self.content_width() / (CHAR_WIDTH as int)
        &&& self.state.rows == self.content_height() / (CHAR_HEIGHT as int)
        &&& self.pending matches Some(task) ==> task.wf()
    }

    /// A new window of `width` by `height` pixels.
    pub open spec fn fresh(width: nat, height: nat, font: FontView) -> Self {
        let window = WindowView {
            state: TerminalView::fresh(0, 0),
            ctx: initial_context(),
            width,
            height,
            font,
            active: true,
            shift: false,
            should_close: false,
            dirty: true,
            input: Seq::empty(),
            prompt_pos: 0,
            pending: None,
        };
        WindowView {
            state: TerminalView::fresh(
                (window.content_width() / (CHAR_WIDTH as int)) as nat,
                (window.content_height() / (CHAR_HEIGHT as int)) as nat,
            ),
            ..window
        }
    }

    /// The prompt is shown and a new command line begins.
    pub open spec fn show_prompt(self) -> Self {
        WindowView {
            state: self.state.write_str(self.ctx.prompt()),
            prompt_pos: byte_len(self.ctx.prompt()),
            input: Seq::empty(),
            ..self
        }
    }

    /// The greeting, then the prompt.
    pub open spec fn show_welcome(self) -> Self {
        (WindowView { state: self.state.write_str(WELCOME_TEXT@), ..self }).show_prompt()
    }

    /// What the window does when a command returns: it waits with a
    /// command that waits; it closes on `exit`; else it shows the next
    /// prompt, after clearing the screen on `clear` and after the
    /// message of an error.
    pub open spec fn settle(self, effect: Effect) -> Self {
        let next = WindowView { state: effect.output, ctx: effect.ctx, ..self };
        match effect.step {
            StepView::Wait(task) => WindowView { pending: Some(task), ..next },
            StepView::Done(ResultView::Continue) => next.show_prompt(),
            StepView::Done(ResultView::Exit) => WindowView { should_close: true, ..next },
            StepView::Done(ResultView::Clear) => (WindowView { state: next.state.clear(), ..next }).show_prompt(),
            StepView::Done(ResultView::Error(msg)) => (WindowView {
                state: next.state.write_str("Erro: "@).write_line(msg),
                ..next
            }).show_prompt(),
        }
    }

    /// Enter: the line ends and what was typed runs as a command.
    pub open spec fn enter(self) -> Self {
        self.settle(execute(self.input, self.state.write_char('\n'), self.ctx))
    }

    /// A typed character joins the command line and is echoed.
    pub open spec fn typed(self, c: char) -> Self {
        WindowView { input: self.input.push(c), state: self.state.write_char(c), ..self }
    }

    /// Backspace takes the last character from the command line and
    /// from the screen; nothing on an empty command line.
    pub open spec fn erase(self) -> Self {
        if self.input.len() > 0 {
            WindowView { input: self.input.drop_last(), state: self.state.backspace(), ..self }
        } else {
            self
        }
    }

    /// Whether the pixel `(x, y)` lies on the close button.
    pub open spec fn on_close_button(self, x: int, y: int) -> bool {
        0 <= y < TITLE_BAR_HEIGHT && self.width - BUTTON_WIDTH <= x < self.width
    }

    /// The window after a key that edits or runs the command line.
    /// While a command waits for the operating system such a key is
    /// held back: it changes nothing.
    pub open spec fn edit(self, key: Key) -> Self {
        if self.pending is Some {
            self
        } else {
            match key {
                Key::Backspace => WindowView { dirty: true, ..self.erase() },
                Key::Enter => WindowView { dirty: true, ..self.enter() },
                Key::Text { plain, shifted } => WindowView {
                    dirty: true,
                    ..self.typed(
                        if self.shift {
                            shifted
                        } else {
                            plain
                        },
                    )
                },
                _ => self,
            }
        }
    }

    /// The window after an input event. Shift and the close button work
    /// at any time; the keys that type or run wait for no command to be
    /// waiting.
    pub open spec fn handle(self, event: Event) -> Self {
        match event {
            Event::KeyDown(Key::Shift) => WindowView { shift: true, ..self },
            Event::KeyDown(key) => self.edit(key),
            Event::KeyUp(Key::Shift) => WindowView { shift: false, ..self },
            Event::KeyUp(_) => self,
            Event::MouseDown { x, y } => if self.on_close_button(x as int, y as int) {
                WindowView { should_close: true, ..self }
            } else {
                self
            },
            Event::Other => self,
        }
    }

    /// The window can be drawn: both buttons and the title fit in the
    /// title bar, and every coordinate in an `i32`.
    pub open spec fn drawable(self) -> bool {
        self.decorations().drawable()
    }

    /// The window after a reply of the operating system: the waiting
    /// command goes on. Without a waiting command nothing happens.
    pub open spec fn deliver(self, reply: ReplyView) -> Self {
        match self.pending {
            Some(task) => WindowView {
                dirty: true,
                ..(WindowView { pending: None, ..self }).settle(
                    resumed(task, reply, self.state, self.ctx),
                )
            },
            None => self,
        }
    }

    /// One frame: the blink timer ticks, and the window is dirty if it
    /// was or the cursor changed.
    pub open spec fn frame(self) -> Self {
        WindowView {
            state: self.state.tick(),
            dirty: self.dirty || self.state.tick().cursor_visible != self.state.cursor_visible,
            ..self
        }
    }

    /// The decorations of the window.
    pub open spec fn decorations(self) -> WindowDecorations {
        WindowDecorations {
            title: WINDOW_TITLE,
            width: self.width as u32,
            height: self.height as u32,
            is_active: self.active,
        }
    }

    /// The pixels of viewport row `row`.
    pub open spec fn row_ops(self, row: nat) -> Seq<DrawOp> {
        match self.state.visible_line(row) {
            Some(line) => string_ops(
                self.font,
                line,
                CONTENT_X as int,
                CONTENT_Y + row * CHAR_HEIGHT,
                colors::TEXT,
                colors::BACKGROUND,
            ),
            None => Seq::empty(),
        }
    }

    /// The pixels of the first `n` viewport rows, top first.
    pub open spec fn rows_ops(self, n: nat) -> Seq<DrawOp>
        decreases n,
    {
        if n == 0 {
            Seq::empty()
        } else {
            self.rows_ops((n - 1) as nat) + self.row_ops((n - 1) as nat)
        }
    }

    /// The cursor: a block over its cell, while it is shown.
    pub open spec fn cursor_ops(self) -> Seq<DrawOp> {
        if self.state.cursor_visible {
            seq![
                DrawOp::Fill {
                    left: (CONTENT_X + self.state.cursor_x * CHAR_WIDTH) as i32,
                    top: (CONTENT_Y + self.state.cursor_y * CHAR_HEIGHT) as i32,
                    width: CHAR_WIDTH,
                    height: CHAR_HEIGHT,
                    color: colors::CURSOR,
                },
            ]
        } else {
            Seq::empty()
        }
    }

    /// Everything a frame draws: decorations, the background of the
    /// content, the visible lines, the cursor.
    pub open spec fn ops(self) -> Seq<DrawOp> {
        self.decorations().ops(self.font) + seq![
            DrawOp::Fill {
                left: CONTENT_X as i32,
                top: CONTENT_Y as i32,
                width: self.content_width() as u32,
                height: self.content_height() as u32,
                color: colors::BACKGROUND,
            },
        ] + self.rows_ops(self.state.rows) + self.cursor_ops()
    }
}

/// The title has eight bytes.
pub proof fn lemma_title_len()
    ensures
        encode_utf8(WINDOW_TITLE@).len() == 8,
{
    reveal_strlit("Terminal");
    let title: &str = "Terminal";
    assert(WINDOW_TITLE@ == title@);
    assert(vstd::string::is_ascii(title));
    vstd::string::is_ascii_spec_bytes(title);
    assert(title.spec_bytes().len() == 8);
}

/// The terminal window.
pub struct TerminalWindow {
    state: TerminalState,
    shell_ctx: ShellContext,
    decorations: WindowDecorations,
    renderer: TextRenderer,
    width: u32,
    height: u32,
    shift: bool,
    should_close: bool,
    dirty: bool,
    input_buffer: String,
    prompt_pos: usize,
    pending: Option<Task>,
}

impl View for TerminalWindow {
    type V = WindowView;

    closed spec fn view(&self) -> WindowView {
        WindowView {
            state: self.state@,
            ctx: self.shell_ctx@,
            width: self.width as nat,
            height: self.height as nat,
            font: self.renderer.font(),
            active: self.decorations.is_active,
            shift: self.shift,
            should_close: self.should_close,
            dirty: self.dirty,
            input: self.input_buffer@,
            prompt_pos: self.prompt_pos as nat,
            pending: match self.pending {
                Some(task) => Some(task@),
                None => None,
            },
        }
    }
}

impl TerminalWindow {
    /// The invariant of the window; every operation keeps it.
    pub closed spec fn wf(&self) -> bool {
        &&& self@.wf()
        &&& self.decorations == self@.decorations()
        &&& self.renderer.fg_color == colors::TEXT
        &&& self.renderer.bg_color == colors::BACKGROUND
    }

    /// A window of `width` by `height` pixels, with the font without
    /// glyphs.
    pub fn new(width: u32, height: u32) -> (w: Self)
        requires
            MIN_WIDTH <= width,
            MIN_HEIGHT <= height,
        ensures
            w.wf(),
            w@.wf(),
            w@ == WindowView::fresh(width as nat, height as nat, no_glyphs()),
    {
        Self::build(width, height, TextRenderer::new())
    }

    /// A window of `width` by `height` pixels that draws with `font`.
    pub fn with_font(width: u32, height: u32, font: BitFont) -> (w: Self)
        requires
            MIN_WIDTH <= width,
            MIN_HEIGHT <= height,
        ensures
            w.wf(),
            w@.wf(),
            w@ == WindowView::fresh(width as nat, height as nat, font@),
    {
        Self::build(width, height, TextRenderer::with_font(font))
    }

    fn build(width: u32, height: u32, renderer: TextRenderer) -> (w: Self)
        requires
            MIN_WIDTH <= width,
            MIN_HEIGHT <= height,
            renderer.fg_color == colors::TEXT,
            renderer.bg_color == colors::BACKGROUND,
        ensures
            w.wf(),
            w@.wf(),
            w@ == WindowView::fresh(width as nat, height as nat, renderer.font()),
    {
        let content_width = width - 2 - (CONTENT_PADDING * 2);
        let content_height = height - TITLE_BAR_HEIGHT - 1 - (CONTENT_PADDING * 2);
        let cols = content_width / CHAR_WIDTH;
        let rows = content_height / CHAR_HEIGHT;
        let w = TerminalWindow {
            state: TerminalState::new(cols, rows),
            shell_ctx: ShellContext::new(),
            decorations: WindowDecorations::new(WINDOW_TITLE, width, height),
            renderer,
            width,
            height,
            shift: false,
            should_close: false,
            dirty: true,
            input_buffer: String::new(),
            prompt_pos: 0,
            pending: None,
        };
        proof {
            assert(w@.state.wf());
        }
        w
    }

    /// The text buffer.
    pub fn state(&self) -> (state: &TerminalState)
        ensures
            state@ == self@.state,
    {
        &self.state
    }

    /// The shell context.
    pub fn shell_ctx(&self) -> (ctx: &ShellContext)
        ensures
            ctx@ == self@.ctx,
    {
        &self.shell_ctx
    }

    /// Whether the session is to end.
    pub fn should_close(&self) -> (b: bool)
        ensures
            b == self@.should_close,
    {
        self.should_close
    }

    /// Whether the window is to be drawn again.
    pub fn dirty(&self) -> (b: bool)
        ensures
            b == self@.dirty,
    {
        self.dirty
    }

    /// What the waiting command asks of the operating system, if a
    /// command waits.
    pub fn pending_request(&self) -> (request: Option<SysRequest>)
        requires
            self.wf(),
        ensures
            match request {
                Some(r) => self@.pending matches Some(task) && r@ == task.request(),
                None => self@.pending is None,
            },
    {
        match &self.pending {
            None => None,
            Some(task) => Some(task.request()),
        }
    }

    /// Shows the greeting and the first prompt.
    pub fn show_welcome(&mut self)
        requires
            old(self).wf(),
        ensures
            final(self).wf(),
            final(self)@ == old(self)@.show_welcome(),
    {
        self.state.write_str(WELCOME_TEXT);
        self.show_prompt();
    }

    fn show_prompt(&mut self)
        requires
            old(self).wf(),
        ensures
            final(self).wf(),
            final(self)@ == old(self)@.show_prompt(),
    {
        let prompt = self.shell_ctx.prompt();
        self.state.write_str(prompt.as_str());
        self.prompt_pos = prompt.as_str().len();
        self.input_buffer = String::new();
    }

    /// Handles one input event. Shift and the close button work at any
    /// time; while a command waits for the operating system the keys
    /// that type or run are held back.
    pub fn handle_event(&mut self, event: Event)
        requires
            old(self).wf(),
        ensures
            final(self).wf(),
            final(self)@ == old(self)@.handle(event),
    {
        match event {
            Event::KeyDown(key) => match key {
                Key::Shift => {
                    self.shift = true;
                },
                _ => {
                    self.handle_key(key);
                },
            },
            Event::KeyUp(key) => match key {
                Key::Shift => {
                    self.shift = false;
                },
                _ => {},
            },
            Event::MouseDown { x, y } => {
                if y >= 0 && y < TITLE_BAR_HEIGHT as i32 {
                    let width = self.width as i64;
                    if x as i64 >= width - BUTTON_WIDTH as i64 && (x as i64) < width {
                        self.should_close = true;
                    }
                }
            },
            Event::Other => {},
        }
    }

    fn handle_key(&mut self, key: Key)
        requires
            old(self).wf(),
        ensures
            final(self).wf(),
            final(self)@ == old(self)@.edit(key),
    {
        if self.pending.is_some() {
            return ;
        }
        match key {
            Key::Backspace => {
                self.handle_backspace();
                self.dirty = true;
            },
            Key::Enter => {
                self.handle_enter();
                self.dirty = true;
            },
            Key::Text { plain, shifted } => {
                let c = if self.shift {
                    shifted
                } else {
                    plain
                };
                self.handle_char(c);
                self.dirty = true;
            },
            _ => {},
        }
    }

    fn handle_char(&mut self, c: char)
        requires
            old(self).wf(),
        ensures
            final(self).wf(),
            final(self)@ == old(self)@.typed(c),
    {
        push_char(&mut self.input_buffer, c);
        self.state.write_char(c);
    }

    fn handle_backspace(&mut self)
        requires
            old(self).wf(),
        ensures
            final(self).wf(),
            final(self)@ == old(self)@.erase(),
    {
        let len = self.input_buffer.as_str().unicode_len();
        if len > 0 {
            let shorter = String::from_str(self.input_buffer.as_str().substring_char(0, len - 1));
            proof {
                assert(shorter@ =~= self.input_buffer@.drop_last());
            }
            self.input_buffer = shorter;
            self.state.backspace();
        }
    }

    fn handle_enter(&mut self)
        requires
            old(self).wf(),
            old(self)@.pending is None,
        ensures
            final(self).wf(),
            final(self)@ == old(self)@.enter(),
    {
        self.state.write_char('\n');
        let cmd = self.input_buffer.clone();
        let step = execute_command(cmd.as_str(), &mut self.shell_ctx, &mut self.state);
        self.settle(step);
    }

    fn settle(&mut self, step: Step)
        requires
            old(self).wf(),
            step@ matches StepView::Wait(t) ==> t.wf(),
        ensures
            final(self).wf(),
            final(self)@ == old(self)@.settle(
                Effect { output: old(self)@.state, ctx: old(self)@.ctx, step: step@ },
            ),
    {
        match step {
            Step::Wait(task) => {
                self.pending = Some(task);
            },
            Step::Done(result) => match result {
                CommandResult::Continue => {
                    self.show_prompt();
                },
                CommandResult::Exit => {
                    self.should_close = true;
                },
                CommandResult::Clear => {
                    self.state.clear();
                    self.show_prompt();
                },
                CommandResult::Error(msg) => {
                    self.state.write_str("Erro: ");
                    self.state.write_line(msg.as_str());
                    self.show_prompt();
                },
            },
        }
    }

    /// Hands the reply of the operating system to the command that
    /// waits for it. Without a waiting command nothing happens.
    pub fn deliver(&mut self, reply: SysReply)
        requires
            old(self).wf(),
        ensures
            final(self).wf(),
            final(self)@ == old(self)@.deliver(reply@),
    {
        let pending = self.pending.take();
        match pending {
            None => {},
            Some(task) => {
                let step = resume(task, reply, &mut self.shell_ctx, &mut self.state);
                self.settle(step);
                self.dirty = true;
            },
        }
    }

    /// Writes `text` to the terminal.
    pub fn write(&mut self, text: &str)
        requires
            old(self).wf(),
        ensures
            final(self).wf(),
            final(self)@ == (WindowView { state: old(self)@.state.write_str(text@), ..old(self)@ }),
    {
        self.state.write_str(text);
    }

    /// Writes `text` and a line feed to the terminal.
    pub fn writeln(&mut self, text: &str)
        requires
            old(self).wf(),
        ensures
            final(self).wf(),
            final(self)@ == (WindowView { state: old(self)@.state.write_line(text@), ..old(self)@ }),
    {
        self.state.write_line(text);
    }

    /// Clears the terminal.
    pub fn clear(&mut self)
        requires
            old(self).wf(),
        ensures
            final(self).wf(),
            final(self)@ == (WindowView { state: old(self)@.state.clear(), ..old(self)@ }),
    {
        self.state.clear();
    }

    /// Advances the blink timer by one frame.
    pub fn tick(&mut self)
        requires
            old(self).wf(),
        ensures
            final(self).wf(),
            final(self)@ == (WindowView { state: old(self)@.state.tick(), ..old(self)@ }),
    {
        self.state.tick();
    }

    /// One frame of the frame loop: the blink timer ticks, and a change
    /// of the cursor makes the window dirty.
    pub fn frame(&mut self)
        requires
            old(self).wf(),
        ensures
            final(self).wf(),
            final(self)@ == old(self)@.frame(),
    {
        let before = self.state.cursor_visible();
        self.state.tick();
        if before != self.state.cursor_visible() {
            self.dirty = true;
        }
    }

    /// Whether the window can be drawn: it is at least as wide as the
    /// two buttons of the title bar, and no larger than an `i32` counts.
    pub fn can_draw(&self) -> (b: bool)
        requires
            self.wf(),
        ensures
            b == self@.drawable(),
    {
        proof {
            lemma_title_len();
        }
        self.width >= 2 * BUTTON_WIDTH && self.width <= 0x7fff_ffff && self.height <= 0x7fff_ffff
    }

    /// Draws the window if it is dirty, and marks it clean. Returns
    /// whether it drew.
    pub fn redraw(&mut self, canvas: &mut Canvas) -> (drawn: bool)
        requires
            old(self).wf(),
            old(self)@.drawable(),
        ensures
            final(self).wf(),
            drawn == old(self)@.dirty,
            final(self)@ == (WindowView { dirty: false, ..old(self)@ }),
            final(canvas)@ == if drawn {
                old(canvas)@ + old(self)@.ops()
            } else {
                old(canvas)@
            },
    {
        if self.dirty {
            self.draw(canvas);
            self.dirty = false;
            true
        } else {
            false
        }
    }

    /// Draws the whole window: decorations, background, visible lines
    /// and cursor.
    pub fn draw(&self, canvas: &mut Canvas)
        requires
            self.wf(),
            self@.drawable(),
        ensures
            final(canvas)@ == old(canvas)@ + self@.ops(),
    {
        let ghost start = canvas@;
        proof {
            lemma_title_len();
        }
        self.decorations.draw(canvas, &self.renderer);
        let (content_x, content_y, content_w, content_h) = self.decorations.content_area();
        canvas.fill_rect(content_x as i32, content_y as i32, content_w, content_h, colors::BACKGROUND);
        self.draw_content(canvas, content_x, content_y);
        if self.state.cursor_visible() {
            self.draw_cursor(canvas, content_x, content_y);
        }
        proof {
            assert(canvas@ =~= start + self@.ops());
        }
    }

    fn draw_content(&self, canvas: &mut Canvas, x: u32, y: u32)
        requires
            self.wf(),
            x == CONTENT_X,
            y == CONTENT_Y,
        ensures
            final(canvas)@ == old(canvas)@ + self@.rows_ops(self@.state.rows),
    {
        let ghost start = canvas@;
        let rows = self.state.rows();
        let mut row: u32 = 0;
        proof {
            assert(start + self@.rows_ops(0) =~= start);
        }
        while row < rows
            invariant
                self.wf(),
                row <= rows,
                rows == self@.state.rows,
                x == CONTENT_X,
                y == CONTENT_Y,
                canvas@ == start + self@.rows_ops(row as nat),
            decreases rows - row,
        {
            match self.state.get_visible_line(row) {
                Some(line) => {
                    proof {
                        lemma_cells_prefix(line@, line@.len() as int);
                        assert(row * CHAR_HEIGHT + CHAR_HEIGHT <= rows * CHAR_HEIGHT) by (nonlinear_arith)
                            requires
                                row < rows,
                        ;
                        let at = (self@.state.scroll_offset + row) as int;
                        assert(line@ == self@.state.lines[at]);
                        assert(line@.len() <= self@.state.width());
                    }
                    let line_y = y + (row * CHAR_HEIGHT);
                    self.renderer.draw_string(canvas, x, line_y, line);
                },
                None => {},
            }
            proof {
                assert(canvas@ =~= start + self@.rows_ops((row + 1) as nat));
            }
            row += 1;
        }
    }

    fn draw_cursor(&self, canvas: &mut Canvas, content_x: u32, content_y: u32)
        requires
            self.wf(),
            self@.drawable(),
            content_x == CONTENT_X,
            content_y == CONTENT_Y,
            self@.state.cursor_visible,
        ensures
            final(canvas)@ == old(canvas)@ + self@.cursor_ops(),
    {
        proof {
            assert(self@.state.cursor_x * CHAR_WIDTH <= self@.content_width());
            assert(self@.state.cursor_y * CHAR_HEIGHT <= self@.content_height()) by (nonlinear_arith)
                requires
                    self@.state.cursor_y < self@.state.rows,
                    self@.state.rows * CHAR_HEIGHT <= self@.content_height(),
            ;
        }
        let cursor_x = content_x + (self.state.cursor_x() * CHAR_WIDTH);
        let cursor_y = content_y + (self.state.cursor_y() * CHAR_HEIGHT);
        canvas.fill_rect(cursor_x as i32, cursor_y as i32, CHAR_WIDTH, CHAR_HEIGHT, colors::CURSOR);
    }

    /// Number of columns of the terminal.
    pub fn cols(&self) -> (n: u32)
        ensures
            n == self@.state.cols,
    {
        self.state.cols()
    }

    /// Number of rows of the terminal.
    pub fn rows(&self) -> (n: u32)
        ensures
            n == self@.state.rows,
    {
        self.state.rows()
    }
}

} // verus!

//! Window decorations: title bar, buttons and border.

use crate::render::canvas::{Canvas, DrawOp};
use crate::render::colors;
use crate::render::font::{FontView, CHAR_HEIGHT, CHAR_WIDTH};
use crate::render::text::{cells, string_ops, TextRenderer};
use vstd::prelude::*;
use vstd::utf8::encode_utf8;

verus! {

/// Height of the title bar.
pub const TITLE_BAR_HEIGHT: u32 = 28;

/// Width of a button of the title bar.
pub const BUTTON_WIDTH: u32 = 46;

/// Width of the border.
pub const BORDER_WIDTH: u32 = 1;

/// Space between the border and the content.
pub const CONTENT_PADDING: u32 = 4;

/// The decorations of a window.
pub struct WindowDecorations {
    /// Title of the window.
    pub title: &'static str,
    /// Width of the window in pixels.
    pub width: u32,
    /// Height of the window in pixels.
    pub height: u32,
    /// Whether the window has the focus.
    pub is_active: bool,
}

/// A text has at least as many bytes as characters, and no more cells
/// than characters.
pub proof fn lemma_cells_fit_bytes(text: Seq<char>)
    ensures
        cells(text) <= text.len() <= encode_utf8(text).len(),
{
    crate::render::text::lemma_cells_prefix(text, text.len() as int);
    lemma_chars_fit_bytes(text);
}

proof fn lemma_chars_fit_bytes(text: Seq<char>)
    ensures
        text.len() <= encode_utf8(text).len(),
    decreases text.len(),
{
    if text.len() > 0 {
        lemma_chars_fit_bytes(text.drop_first());
    }
}

impl WindowDecorations {
    /// Decorations of an active window.
    pub fn new(title: &'static str, width: u32, height: u32) -> (d: Self)
        ensures
            d.title == title,
            d.width == width,
            d.height == height,
            d.is_active,
    {
        WindowDecorations { title, width, height, is_active: true }
    }

    /// The window is large enough for its decorations: both buttons and
    /// the title fit in the width, the title bar in the height, and
    /// every coordinate in an `i32`.
    pub open spec fn drawable(&self) -> bool {
        &&& 2 * BUTTON_WIDTH <= self.width <= i32::MAX
        &&& TITLE_BAR_HEIGHT <= self.height <= i32::MAX
        &&& CHAR_WIDTH * encode_utf8(self.title@).len() <= self.width
    }

    /// Color of the title bar.
    pub open spec fn bar_color(&self) -> u32 {
        if self.is_active {
            colors::TITLE_BAR_BG_ACTIVE
        } else {
            colors::TITLE_BAR_BG
        }
    }

    /// Where the title starts: centered by its bytes.
    pub open spec fn title_x(&self) -> int {
        (self.width - CHAR_WIDTH * encode_utf8(self.title@).len()) / 2
    }

    /// Where text stands in the title bar: centered vertically.
    pub open spec fn text_y() -> int {
        ((TITLE_BAR_HEIGHT - CHAR_HEIGHT) / 2) as int
    }

    /// A button: its background, and its label in the middle.
    pub open spec fn button_ops(font: FontView, left: int, label: Seq<char>, color: u32) -> Seq<
        DrawOp,
    > {
        seq![
            DrawOp::Fill {
                left: left as i32,
                top: 0,
                width: BUTTON_WIDTH,
                height: TITLE_BAR_HEIGHT,
                color,
            },
        ] + string_ops(
            font,
            label,
            left + (BUTTON_WIDTH - CHAR_WIDTH) / 2,
            Self::text_y(),
            colors::TITLE_TEXT,
            color,
        )
    }

    /// The title bar: background, title, close button at the right edge
    /// and minimize button left of it.
    pub open spec fn title_bar_ops(&self, font: FontView) -> Seq<DrawOp> {
        seq![
            DrawOp::Fill {
                left: 0,
                top: 0,
                width: self.width,
                height: TITLE_BAR_HEIGHT,
                color: self.bar_color(),
            },
        ] + string_ops(
            font,
            self.title@,
            self.title_x(),
            Self::text_y(),
            colors::TITLE_TEXT,
            self.bar_color(),
        ) + Self::button_ops(font, self.width - BUTTON_WIDTH, "X"@, colors::CLOSE_BUTTON_HOVER)
            + Self::button_ops(
            font,
            self.width - 2 * BUTTON_WIDTH,
            "-"@,
            colors::MINIMIZE_BUTTON_HOVER,
        )
    }

    /// The border: left, right and bottom.
    pub open spec fn border_ops(&self) -> Seq<DrawOp> {
        seq![
            DrawOp::Fill {
                left: 0,
                top: TITLE_BAR_HEIGHT as i32,
                width: BORDER_WIDTH,
                height: (self.height - TITLE_BAR_HEIGHT) as u32,
                color: colors::WINDOW_BORDER,
            },
            DrawOp::Fill {
                left: (self.width - BORDER_WIDTH) as i32,
                top: TITLE_BAR_HEIGHT as i32,
                width: BORDER_WIDTH,
                height: (self.height - TITLE_BAR_HEIGHT) as u32,
                color: colors::WINDOW_BORDER,
            },
            DrawOp::Fill {
                left: 0,
                top: (self.height - BORDER_WIDTH) as i32,
                width: self.width,
                height: BORDER_WIDTH,
                color: colors::WINDOW_BORDER,
            },
        ]
    }

    /// Everything the decorations draw: title bar, then border.
    pub open spec fn ops(&self, font: FontView) -> Seq<DrawOp> {
        self.title_bar_ops(font) + self.border_ops()
    }

    /// Draws title bar and border with the font of `renderer`.
    pub fn draw(&self, canvas: &mut Canvas, renderer: &TextRenderer)
        requires
            self.drawable(),
        ensures
            final(canvas)@ == old(canvas)@ + self.ops(renderer.font()),
    {
        let ghost start = canvas@;
        self.draw_title_bar(canvas, renderer);
        self.draw_border(canvas);
        proof {
            assert(canvas@ =~= start + self.ops(renderer.font()));
        }
    }

    fn draw_title_bar(&self, canvas: &mut Canvas, renderer: &TextRenderer)
        requires
            self.drawable(),
        ensures
            final(canvas)@ == old(canvas)@ + self.title_bar_ops(renderer.font()),
    {
        let ghost start = canvas@;
        let bg_color = if self.is_active {
            colors::TITLE_BAR_BG_ACTIVE
        } else {
            colors::TITLE_BAR_BG
        };
        canvas.fill_rect(0, 0, self.width, TITLE_BAR_HEIGHT, bg_color);
        proof {
            lemma_cells_fit_bytes(self.title@);
        }
        let title_width = self.title.len() as u32 * CHAR_WIDTH;
        let title_x = (self.width - title_width) / 2;
        let title_y = (TITLE_BAR_HEIGHT - CHAR_HEIGHT) / 2;
        renderer.draw_string_colored(canvas, title_x, title_y, self.title, colors::TITLE_TEXT, bg_color);
        self.draw_close_button(canvas, renderer);
        self.draw_minimize_button(canvas, renderer);
        proof {
            assert(canvas@ =~= start + self.title_bar_ops(renderer.font()));
        }
    }

    fn draw_button(canvas: &mut Canvas, renderer: &TextRenderer, left: u32, label: &str, color: u32)
        requires
            left + BUTTON_WIDTH <= i32::MAX,
            label@.len() == 1,
        ensures
            final(canvas)@ == old(canvas)@ + Self::button_ops(
                renderer.font(),
                left as int,
                label@,
                color,
            ),
    {
        let ghost start = canvas@;
        canvas.fill_rect(left as i32, 0, BUTTON_WIDTH, TITLE_BAR_HEIGHT, color);
        let x = left + (BUTTON_WIDTH - CHAR_WIDTH) / 2;
        let y = (TITLE_BAR_HEIGHT - CHAR_HEIGHT) / 2;
        proof {
            lemma_cells_fit_bytes(label@);
        }
        renderer.draw_string_colored(canvas, x, y, label, colors::TITLE_TEXT, color);
        proof {
            assert(canvas@ =~= start + Self::button_ops(renderer.font(), left as int, label@, color));
        }
    }

    fn draw_close_button(&self, canvas: &mut Canvas, renderer: &TextRenderer)
        requires
            self.drawable(),
        ensures
            final(canvas)@ == old(canvas)@ + Self::button_ops(
                renderer.font(),
                self.width - BUTTON_WIDTH,
                "X"@,
                colors::CLOSE_BUTTON_HOVER,
            ),
    {
        proof {
            reveal_strlit("X");
        }
        Self::draw_button(canvas, renderer, self.width - BUTTON_WIDTH, "X", colors::CLOSE_BUTTON_HOVER);
    }

    fn draw_minimize_button(&self, canvas: &mut Canvas, renderer: &TextRenderer)
        requires
            self.drawable(),
        ensures
            final(canvas)@ == old(canvas)@ + Self::button_ops(
                renderer.font(),
                self.width - 2 * BUTTON_WIDTH,
                "-"@,
                colors::MINIMIZE_BUTTON_HOVER,
            ),
    {
        proof {
            reveal_strlit("-");
        }
        Self::draw_button(
            canvas,
            renderer,
            self.width - BUTTON_WIDTH * 2,
            "-",
            colors::MINIMIZE_BUTTON_HOVER,
        );
    }

    fn draw_border(&self, canvas: &mut Canvas)
        requires
            self.drawable(),
        ensures
            final(canvas)@ == old(canvas)@ + self.border_ops(),
    {
        let ghost start = canvas@;
        let color = colors::WINDOW_BORDER;
        canvas.fill_rect(0, TITLE_BAR_HEIGHT as i32, BORDER_WIDTH, self.height - TITLE_BAR_HEIGHT, color);
        canvas.fill_rect(
            (self.width - BORDER_WIDTH) as i32,
            TITLE_BAR_HEIGHT as i32,
            BORDER_WIDTH,
            self.height - TITLE_BAR_HEIGHT,
            color,
        );
        canvas.fill_rect(0, (self.height - BORDER_WIDTH) as i32, self.width, BORDER_WIDTH, color);
        proof {
            assert(canvas@ =~= start + self.border_ops());
        }
    }

    /// The area inside border and padding, as `(x, y, width, height)`.
    pub fn content_area(&self) -> (area: (u32, u32, u32, u32))
        requires
            self.width >= 2 * BORDER_WIDTH + 2 * CONTENT_PADDING,
            self.height >= TITLE_BAR_HEIGHT + BORDER_WIDTH + 2 * CONTENT_PADDING,
        ensures
            area.0 == BORDER_WIDTH + CONTENT_PADDING,
            area.1 == TITLE_BAR_HEIGHT + CONTENT_PADDING,
            area.2 == self.width - 2 * BORDER_WIDTH - 2 * CONTENT_PADDING,
            area.3 == self.height - TITLE_BAR_HEIGHT - BORDER_WIDTH - 2 * CONTENT_PADDING,
    {
        let x = BORDER_WIDTH + CONTENT_PADDING;
        let y = TITLE_BAR_HEIGHT + CONTENT_PADDING;
        let w = self.width - (BORDER_WIDTH * 2) - (CONTENT_PADDING * 2);
        let h = self.height - TITLE_BAR_HEIGHT - BORDER_WIDTH - (CONTENT_PADDING * 2);
        (x, y, w, h)
    }
}

} // verus!

//! The glyph rasterizer: characters and strings as pixels.

use crate::render::canvas::{Canvas, DrawOp};
use crate::render::colors;
use crate::render::font::{no_glyphs, BitFont, FontView, Glyph, CHAR_HEIGHT, CHAR_WIDTH};
use vstd::prelude::*;

verus! {

/// Whether `row` has the pixel in column `col` set; column 0 is the
/// highest bit.
pub open spec fn bit_set(row: u8, col: u8) -> bool {
    (row >> ((7 - col) as u8)) & 1 == 1
}

/// The pixels of one glyph cell with its top left corner at `(x, y)`,
/// row by row: a set bit in `fg`, a clear bit in `bg`.
pub open spec fn glyph_ops(glyph: Seq<u8>, x: int, y: int, fg: u32, bg: u32) -> Seq<DrawOp> {
    Seq::new(
        (CHAR_WIDTH * CHAR_HEIGHT) as nat,
        |k: int|
            DrawOp::Pixel {
                x: (x + k % 8) as u32,
                y: (y + k / 8) as u32,
                color: if bit_set(glyph[k / 8], (k % 8) as u8) {
                    fg
                } else {
                    bg
                },
            },
    )
}

/// Number of cells that `text` takes: line feeds take none.
pub open spec fn cells(text: Seq<char>) -> nat
    decreases text.len(),
{
    if text.len() == 0 {
        0
    } else if text.last() == '\n' {
        cells(text.drop_last())
    } else {
        cells(text.drop_last()) + 1
    }
}

/// The pixels of `text` drawn from `(x, y)` to the right, one cell per
/// character; line feeds draw nothing and do not move the pen.
pub open spec fn string_ops(font: FontView, text: Seq<char>, x: int, y: int, fg: u32, bg: u32) -> Seq<
    DrawOp,
>
    decreases text.len(),
{
    if text.len() == 0 {
        Seq::empty()
    } else if text.last() == '\n' {
        string_ops(font, text.drop_last(), x, y, fg, bg)
    } else {
        string_ops(font, text.drop_last(), x, y, fg, bg) + glyph_ops(
            font.glyph(text.last()),
            x + CHAR_WIDTH * cells(text.drop_last()),
            y,
            fg,
            bg,
        )
    }
}

/// Draws text with a bitmap font.
pub struct TextRenderer {
    /// The font.
    pub font: BitFont,
    /// Color of set pixels.
    pub fg_color: u32,
    /// Color of clear pixels.
    pub bg_color: u32,
}

fn is_set(row: u8, col: u8) -> (b: bool)
    requires
        col < 8,
    ensures
        b == bit_set(row, col),
{
    (row >> (7 - col)) & 1 == 1
}

impl TextRenderer {
    /// The font of the renderer.
    pub open spec fn font(&self) -> FontView {
        self.font@
    }

    /// A renderer in the colors of the terminal, with the font without
    /// glyphs.
    pub fn new() -> (r: Self)
        ensures
            r.fg_color == colors::TEXT,
            r.bg_color == colors::BACKGROUND,
            r.font() == no_glyphs(),
    {
        TextRenderer { font: BitFont::new(), fg_color: colors::TEXT, bg_color: colors::BACKGROUND }
    }

    /// A renderer in the colors of the terminal, with the font `font`.
    pub fn with_font(font: BitFont) -> (r: Self)
        ensures
            r.fg_color == colors::TEXT,
            r.bg_color == colors::BACKGROUND,
            r.font() == font@,
    {
        TextRenderer { font, fg_color: colors::TEXT, bg_color: colors::BACKGROUND }
    }

    /// Draws the cell of `c` with its top left corner at `(x, y)`, in
    /// the colors of the renderer. Every pixel of the cell is drawn.
    pub fn draw_char(&self, canvas: &mut Canvas, x: u32, y: u32, c: char)
        requires
            x + CHAR_WIDTH - 1 <= u32::MAX,
            y + CHAR_HEIGHT - 1 <= u32::MAX,
        ensures
            final(canvas)@ == old(canvas)@ + glyph_ops(
                self.font().glyph(c),
                x as int,
                y as int,
                self.fg_color,
                self.bg_color,
            ),
    {
        self.draw_char_colored(canvas, x, y, c, self.fg_color, self.bg_color);
    }

    /// Draws `text` from `(x, y)` to the right in the colors of the
    /// renderer; line feeds are skipped.
    pub fn draw_string(&self, canvas: &mut Canvas, x: u32, y: u32, text: &str)
        requires
            x + CHAR_WIDTH * cells(text@) <= u32::MAX,
            y + CHAR_HEIGHT - 1 <= u32::MAX,
        ensures
            final(canvas)@ == old(canvas)@ + string_ops(
                self.font(),
                text@,
                x as int,
                y as int,
                self.fg_color,
                self.bg_color,
            ),
    {
        self.draw_string_colored(canvas, x, y, text, self.fg_color, self.bg_color);
    }

    /// Draws `text` from `(x, y)` to the right with `fg` for set and
    /// `bg` for clear pixels; line feeds are skipped.
    pub fn draw_string_colored(
        &self,
        canvas: &mut Canvas,
        x: u32,
        y: u32,
        text: &str,
        fg: u32,
        bg: u32,
    )
        requires
            x + CHAR_WIDTH * cells(text@) <= u32::MAX,
            y + CHAR_HEIGHT - 1 <= u32::MAX,
        ensures
            final(canvas)@ == old(canvas)@ + string_ops(self.font(), text@, x as int, y as int, fg, bg),
    {
        let mut pen: u32 = x;
        let ghost start = canvas@;
        proof {
            assert(start + Seq::<DrawOp>::empty() =~= start);
        }
        for c in it: text.chars()
            invariant
                it.seq() == text@,
                x + CHAR_WIDTH * cells(text@) <= u32::MAX,
                y + CHAR_HEIGHT - 1 <= u32::MAX,
                pen == x + CHAR_WIDTH * cells(text@.take(it.index() as int)),
                canvas@ == start + string_ops(
                    self.font(),
                    text@.take(it.index() as int),
                    x as int,
                    y as int,
                    fg,
                    bg,
                ),
        {
            let ghost done = text@.take(it.index() as int);
            let ghost next = text@.take(it.index() + 1);
            proof {
                assert(next.drop_last() =~= done);
                assert(next.last() == c);
                lemma_cells_prefix(text@, it.index() + 1);
            }
            if c != '\n' {
                self.draw_char_colored(canvas, pen, y, c, fg, bg);
                pen = pen + CHAR_WIDTH;
                proof {
                    assert(canvas@ =~= start + string_ops(
                        self.font(),
                        next,
                        x as int,
                        y as int,
                        fg,
                        bg,
                    ));
                }
            }
        }
        proof {
            assert(text@.take(text@.len() as int) =~= text@);
        }
    }

    fn draw_char_colored(&self, canvas: &mut Canvas, x: u32, y: u32, c: char, fg: u32, bg: u32)
        requires
            x + CHAR_WIDTH - 1 <= u32::MAX,
            y + CHAR_HEIGHT - 1 <= u32::MAX,
        ensures
            final(canvas)@ == old(canvas)@ + glyph_ops(
                self.font().glyph(c),
                x as int,
                y as int,
                fg,
                bg,
            ),
    {
        let glyph: Glyph = self.font.get_glyph(c);
        let ghost start = canvas@;
        let ghost cell = glyph_ops(glyph@, x as int, y as int, fg, bg);
        let mut row: u32 = 0;
        proof {
            assert(start + cell.take(0) =~= start);
        }
        while row < CHAR_HEIGHT
            invariant
                row <= CHAR_HEIGHT,
                x + CHAR_WIDTH - 1 <= u32::MAX,
                y + CHAR_HEIGHT - 1 <= u32::MAX,
                glyph@.len() == CHAR_HEIGHT,
                cell == glyph_ops(glyph@, x as int, y as int, fg, bg),
                canvas@ == start + cell.take(row * 8),
            decreases CHAR_HEIGHT - row,
        {
            let byte = glyph[row as usize];
            let mut col: u32 = 0;
            while col < CHAR_WIDTH
                invariant
                    col <= CHAR_WIDTH,
                    row < CHAR_HEIGHT,
                    x + CHAR_WIDTH - 1 <= u32::MAX,
                    y + CHAR_HEIGHT - 1 <= u32::MAX,
                    byte == glyph@[row as int],
                    cell == glyph_ops(glyph@, x as int, y as int, fg, bg),
                    canvas@ == start + cell.take(row * 8 + col),
                decreases CHAR_WIDTH - col,
            {
                let color = if is_set(byte, col as u8) {
                    fg
                } else {
                    bg
                };
                canvas.put_pixel(x + col, y + row, color);
                proof {
                    let k = row * 8 + col;
                    assert(k / 8 == row && k % 8 == col);
                    assert(cell.take(k + 1) =~= cell.take(k).push(cell[k]));
                    assert(canvas@ =~= start + cell.take(k + 1));
                }
                col += 1;
            }
            row += 1;
        }
        proof {
            assert(cell.take(cell.len() as int) =~= cell);
        }
    }

    /// Width of a glyph cell in pixels.
    pub fn char_width(&self) -> (w: u32)
        ensures
            w == CHAR_WIDTH,
    {
        CHAR_WIDTH
    }

    /// Height of a glyph cell in pixels.
    pub fn char_height(&self) -> (h: u32)
        ensures
            h == CHAR_HEIGHT,
    {
        CHAR_HEIGHT
    }
}

impl Default for TextRenderer {
    fn default() -> (r: Self)
        ensures
            r.fg_color == colors::TEXT,
            r.bg_color == colors::BACKGROUND,
            r.font() == no_glyphs(),
    {
        TextRenderer::new()
    }
}

/// A prefix of a text takes no more cells than the text.
pub proof fn lemma_cells_prefix(text: Seq<char>, k: int)
    requires
        0 <= k <= text.len(),
    ensures
        cells(text.take(k)) <= cells(text),
        cells(text) <= text.len(),
    decreases text.len(),
{
    if text.len() == 0 {
        assert(text.take(k) =~= text);
    } else if k == text.len() {
        assert(text.take(k) =~= text);
        lemma_cells_prefix(text.drop_last(), k - 1);
    } else {
        assert(text.drop_last().take(k) =~= text.take(k));
        lemma_cells_prefix(text.drop_last(), k);
    }
}

} // verus!

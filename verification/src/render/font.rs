//! The bitmap font: one cell of `CHAR_WIDTH` by `CHAR_HEIGHT` pixels per
//! character, one byte per row, the leftmost pixel in the highest bit.

use vstd::prelude::*;

verus! {

/// Width of a glyph cell in pixels.
pub const CHAR_WIDTH: u32 = 8;

/// Height of a glyph cell in pixels.
pub const CHAR_HEIGHT: u32 = 16;

/// Rows of one glyph, top first.
pub type Glyph = [u8; 16];

/// The glyph of a character that the font does not hold: a blank cell.
pub open spec fn blank() -> Seq<u8> {
    Seq::new(CHAR_HEIGHT as nat, |i: int| 0u8)
}

/// The font without glyphs.
pub open spec fn no_glyphs() -> FontView {
    FontView { first: ' ', glyphs: Seq::empty() }
}

/// Model of a font: the glyphs of the characters from `first` on.
pub struct FontView {
    pub first: char,
    pub glyphs: Seq<Seq<u8>>,
}

impl FontView {
    /// Whether the font holds a glyph for `c`.
    pub open spec fn covers(self, c: char) -> bool {
        self.first <= c && (c as int) - (self.first as int) < self.glyphs.len()
    }

    /// The glyph drawn for `c`: its own, or the blank fallback.
    pub open spec fn glyph(self, c: char) -> Seq<u8> {
        if self.covers(c) {
            self.glyphs[(c as int) - (self.first as int)]
        } else {
            blank()
        }
    }
}

/// A bitmap font with fixed cells.
pub struct BitFont {
    first: char,
    glyphs: Vec<Glyph>,
}

impl View for BitFont {
    type V = FontView;

    closed spec fn view(&self) -> FontView {
        FontView { first: self.first, glyphs: Seq::new(self.glyphs@.len(), |i: int| self.glyphs@[i]@) }
    }
}

impl BitFont {
    /// The font without glyphs: every character is drawn as a blank
    /// cell.
    pub fn new() -> (font: Self)
        ensures
            font@ == no_glyphs(),
    {
        let font = BitFont { first: ' ', glyphs: Vec::new() };
        proof {
            assert(font@.glyphs =~= Seq::<Seq<u8>>::empty());
        }
        font
    }

    /// The font that holds `glyphs` for the characters from `first` on.
    pub fn with_glyphs(first: char, glyphs: Vec<Glyph>) -> (font: Self)
        ensures
            font@ == (FontView { first, glyphs: Seq::new(glyphs@.len(), |i: int| glyphs@[i]@) }),
    {
        BitFont { first, glyphs }
    }

    /// The glyph of `c`; the blank cell for a character that the font
    /// does not hold.
    pub fn get_glyph(&self, c: char) -> (glyph: Glyph)
        ensures
            glyph@ == self@.glyph(c),
    {
        if self.first <= c {
            let at = (c as u32 - self.first as u32) as usize;
            if at < self.glyphs.len() {
                return self.glyphs[at];
            }
        }
        let glyph: Glyph = [0u8; 16];
        proof {
            assert(glyph@ =~= blank());
        }
        glyph
    }
}

} // verus!

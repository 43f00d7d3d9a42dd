//! The drawing surface, as the list of operations drawn on it.

use vstd::prelude::*;

verus! {

/// One drawing operation.
#[derive(Clone, Copy, Debug, PartialEq, Eq, Structural)]
pub enum DrawOp {
    /// One pixel.
    Pixel { x: u32, y: u32, color: u32 },
    /// A filled rectangle with its top left corner at `(left, top)`.
    Fill { left: i32, top: i32, width: u32, height: u32, color: u32 },
}

/// A drawing surface. It records what is drawn on it, in order; whoever
/// owns the real surface replays the operations there.
pub struct Canvas {
    ops: Vec<DrawOp>,
}

impl View for Canvas {
    type V = Seq<DrawOp>;

    closed spec fn view(&self) -> Seq<DrawOp> {
        self.ops@
    }
}

impl Canvas {
    /// A surface on which nothing has been drawn.
    pub fn new() -> (canvas: Self)
        ensures
            canvas@ == Seq::<DrawOp>::empty(),
    {
        Canvas { ops: Vec::new() }
    }

    /// Draws one pixel.
    pub fn put_pixel(&mut self, x: u32, y: u32, color: u32)
        ensures
            final(self)@ == old(self)@.push(DrawOp::Pixel { x, y, color }),
    {
        self.ops.push(DrawOp::Pixel { x, y, color });
    }

    /// Fills a rectangle.
    pub fn fill_rect(&mut self, left: i32, top: i32, width: u32, height: u32, color: u32)
        ensures
            final(self)@ == old(self)@.push(DrawOp::Fill { left, top, width, height, color }),
    {
        self.ops.push(DrawOp::Fill { left, top, width, height, color });
    }

    /// Number of operations drawn.
    pub fn len(&self) -> (n: usize)
        ensures
            n == self@.len(),
    {
        self.ops.len()
    }

    /// The operation drawn as number `i`.
    pub fn op(&self, i: usize) -> (op: DrawOp)
        requires
            i < self@.len(),
        ensures
            op == self@[i as int],
    {
        self.ops[i]
    }

    /// Forgets everything drawn.
    pub fn clear(&mut self)
        ensures
            final(self)@ == Seq::<DrawOp>::empty(),
    {
        self.ops.clear();
    }
}

} // verus!

//! Integer geometry of the drawing surface, in device pixels.

use vstd::prelude::*;
use vstd::set_lib::lemma_set_disjoint_lens;

verus! {

/// A pixel position, counted from the top-left corner of the surface.
#[derive(Clone, Copy, Debug, PartialEq, Eq, Structural)]
pub struct Point {
    pub x: u32,
    pub y: u32,
}

/// An axis-aligned rectangle: the pixels `[x, x + w) × [y, y + h)`.
#[derive(Clone, Copy, Debug, PartialEq, Eq, Structural)]
pub struct RectArea {
    pub top_left: Point,
    pub dimensions: Dimensions2d,
}

/// A width and a height. A region with `w == 0` or `h == 0` is empty.
#[derive(Clone, Copy, Debug, PartialEq, Eq, Structural)]
pub struct Dimensions2d {
    pub w: u32,
    pub h: u32,
}

impl RectArea {
    /// Whether the pixel at column `px`, row `py` lies in the rectangle.
    pub open spec fn covers(self, px: int, py: int) -> bool {
        &&& self.top_left.x <= px < self.top_left.x + self.dimensions.w
        &&& self.top_left.y <= py < self.top_left.y + self.dimensions.h
    }

    /// Whether the rectangle covers no pixel at all.
    pub open spec fn is_empty(self) -> bool {
        self.dimensions.w == 0 || self.dimensions.h == 0
    }

    /// Whether the rectangle lies within a surface of the given size.
    pub open spec fn fits(self, width: int, height: int) -> bool {
        &&& self.top_left.x + self.dimensions.w <= width
        &&& self.top_left.y + self.dimensions.h <= height
    }

    /// The pixels that the rectangle covers, each as (column, row).
    pub open spec fn cells(self) -> Set<(int, int)> {
        Set::new(|p: (int, int)| self.covers(p.0, p.1))
    }

    /// A rectangle covers `w * h` pixels.
    pub proof fn lemma_cells_count(self)
        ensures
            self.cells().finite(),
            self.cells().len() == self.dimensions.w * self.dimensions.h,
    {
        let x0 = self.top_left.x as int;
        let y0 = self.top_left.y as int;
        lemma_block_count(x0, y0, self.dimensions.w as nat, self.dimensions.h as nat);
        assert(self.cells() =~= block(x0, y0, self.dimensions.w as nat, self.dimensions.h as nat));
    }
}

/// The pixels of the block `[x0, x0 + w) × [y0, y0 + h)`.
pub open spec fn block(x0: int, y0: int, w: nat, h: nat) -> Set<(int, int)> {
    Set::new(|p: (int, int)| x0 <= p.0 < x0 + w && y0 <= p.1 < y0 + h)
}

/// A block of `w` columns and `h` rows has `w * h` pixels.
pub proof fn lemma_block_count(x0: int, y0: int, w: nat, h: nat)
    ensures
        block(x0, y0, w, h).finite(),
        block(x0, y0, w, h).len() == w * h,
    decreases h, w,
{
    let all = block(x0, y0, w, h);
    if w == 0 || h == 0 {
        assert(all =~= Set::<(int, int)>::empty());
        assert(w * h == 0) by (nonlinear_arith)
            requires
                w == 0 || h == 0,
        ;
    } else if h == 1 {
        let shorter = block(x0, y0, (w - 1) as nat, 1);
        lemma_block_count(x0, y0, (w - 1) as nat, 1);
        assert(all =~= shorter.insert((x0 + w - 1, y0)));
        assert((w - 1) * 1 + 1 == w * 1) by (nonlinear_arith);
    } else {
        let above = block(x0, y0, w, (h - 1) as nat);
        let last = block(x0, y0 + h - 1, w, 1);
        lemma_block_count(x0, y0, w, (h - 1) as nat);
        lemma_block_count(x0, y0 + h - 1, w, 1);
        assert(all =~= above + last);
        assert(above.disjoint(last));
        lemma_set_disjoint_lens(above, last);
        assert(w * (h - 1) + w * 1 == w * h) by (nonlinear_arith);
    }
}

} // verus!

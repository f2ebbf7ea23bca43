//! Drawing by direct pixel manipulation: the whole buffer is read, bytes
//! are changed in place, and the whole buffer is written back.

use vstd::prelude::*;
use vstd::set_lib::{lemma_int_range, set_int_range};

use crate::color::{channel, channels, rgba, Rgba};
use crate::primitives::RectArea;
use crate::web_init::{Raster, WebContext2d};

verus! {

/// The colour of the progress bar: opaque green.
pub const PROGRESS_COLOR: u32 = 0x00FF_00FF;

impl Raster {
    /// The surface after a rectangle was filled: every byte of a pixel
    /// that the rectangle covers holds that pixel's channel of the
    /// colour, every other byte is as before.
    pub open spec fn filled(self, rect: RectArea, color: u32) -> Raster {
        Raster {
            bytes: Seq::new(
                self.bytes.len(),
                |i: int|
                    if rect.covers(self.column_of(i), self.row_of(i)) {
                        channel(color, i % 4)
                    } else {
                        self.bytes[i]
                    },
            ),
            ..self
        }
    }

    /// The surface after the progress bar was drawn for a frame: the
    /// first `frame_count` pixels of the buffer are green, as far as the
    /// buffer goes, and the rest is as before.
    pub open spec fn with_progress(self, frame_count: nat) -> Raster {
        Raster {
            bytes: Seq::new(
                self.bytes.len(),
                |i: int|
                    if i / 4 < frame_count {
                        channel(PROGRESS_COLOR, i % 4)
                    } else {
                        self.bytes[i]
                    },
            ),
            ..self
        }
    }

    /// The pixels of the surface that hold exactly this colour, each as
    /// (column, row).
    pub open spec fn pixels_of(self, color: u32) -> Set<(int, int)> {
        Set::new(|p: (int, int)| self.contains(p.0, p.1) && self.pixel(p.0, p.1) == rgba(color))
    }

    /// The columns of the top row whose pixel holds exactly this colour.
    pub open spec fn top_row_of(self, color: u32) -> Set<int> {
        Set::new(|x: int| self.contains(x, 0) && self.pixel(x, 0) == rgba(color))
    }
}

impl Raster {
    /// A fill gives each pixel of the surface that the rectangle covers
    /// the colour's four channels, and leaves every other pixel as it was.
    pub proof fn lemma_filled_pixel(self, rect: RectArea, color: u32, x: int, y: int)
        requires
            self.wf(),
            self.contains(x, y),
        ensures
            self.filled(rect, color).wf(),
            self.filled(rect, color).pixel(x, y) == if rect.covers(x, y) {
                rgba(color)
            } else {
                self.pixel(x, y)
            },
    {
        self.lemma_pixel_bytes(x, y, 0);
        self.lemma_pixel_bytes(x, y, 1);
        self.lemma_pixel_bytes(x, y, 2);
        self.lemma_pixel_bytes(x, y, 3);
    }

    /// Filling a rectangle of no width or no height changes no byte.
    pub proof fn lemma_filled_empty(self, rect: RectArea, color: u32)
        requires
            rect.is_empty(),
        ensures
            self.filled(rect, color) == self,
    {
        assert(self.filled(rect, color).bytes =~= self.bytes);
    }

    /// A rectangle that begins right of the surface or below it changes
    /// no byte.
    pub proof fn lemma_filled_outside(self, rect: RectArea, color: u32)
        requires
            self.wf(),
            rect.top_left.x >= self.width || rect.top_left.y >= self.height,
        ensures
            self.filled(rect, color) == self,
    {
        let goal = self.filled(rect, color).bytes;
        assert forall|i: int| 0 <= i < goal.len() implies goal[i] == self.bytes[i] by {
            self.lemma_byte_pixel(i);
        }
        assert(goal =~= self.bytes);
    }

    /// Where the rectangle lies within the surface and no pixel outside
    /// it held the colour before, the fill leaves exactly `w * h` pixels
    /// of that colour: those of the rectangle.
    pub proof fn lemma_filled_count(self, rect: RectArea, color: u32)
        requires
            self.wf(),
            rect.fits(self.width as int, self.height as int),
            forall|x: int, y: int|
                self.contains(x, y) && !rect.covers(x, y) ==> #[trigger] self.pixel(x, y) != rgba(
                    color,
                ),
        ensures
            self.filled(rect, color).pixels_of(color) == rect.cells(),
            self.filled(rect, color).pixels_of(color).finite(),
            self.filled(rect, color).pixels_of(color).len() == rect.dimensions.w
                * rect.dimensions.h,
    {
        let after = self.filled(rect, color);
        assert forall|p: (int, int)| after.pixels_of(color).contains(p) == rect.cells().contains(
            p,
        ) by {
            if self.contains(p.0, p.1) {
                self.lemma_filled_pixel(rect, color, p.0, p.1);
            }
        }
        assert(after.pixels_of(color) =~= rect.cells());
        rect.lemma_cells_count();
    }

    /// Filling a rectangle is filling the part of it that lies on the
    /// surface: what reaches beyond the right or bottom edge is cut off.
    pub proof fn lemma_filled_clipped(self, rect: RectArea, inner: RectArea, color: u32)
        requires
            self.wf(),
            inner.top_left == rect.top_left,
            inner.top_left.x + inner.dimensions.w == if rect.top_left.x + rect.dimensions.w
                < self.width {
                rect.top_left.x + rect.dimensions.w
            } else {
                self.width as int
            },
            inner.top_left.y + inner.dimensions.h == if rect.top_left.y + rect.dimensions.h
                < self.height {
                rect.top_left.y + rect.dimensions.h
            } else {
                self.height as int
            },
        ensures
            self.filled(rect, color) == self.filled(inner, color),
    {
        let whole = self.filled(rect, color).bytes;
        let part = self.filled(inner, color).bytes;
        assert forall|i: int| 0 <= i < whole.len() implies whole[i] == part[i] by {
            self.lemma_byte_pixel(i);
        }
        assert(whole =~= part);
    }

    /// The progress bar makes a pixel green where it is among the first
    /// `frame_count` of the buffer, and leaves it as it was otherwise.
    pub proof fn lemma_progress_pixel(self, frame_count: nat, x: int, y: int)
        requires
            self.wf(),
            self.contains(x, y),
        ensures
            self.with_progress(frame_count).wf(),
            self.with_progress(frame_count).pixel(x, y) == if y * self.width + x < frame_count {
                rgba(PROGRESS_COLOR)
            } else {
                self.pixel(x, y)
            },
            rgba(PROGRESS_COLOR) == (0x00u8, 0xffu8, 0x00u8, 0xffu8),
    {
        self.lemma_pixel_bytes(x, y, 0);
        self.lemma_pixel_bytes(x, y, 1);
        self.lemma_pixel_bytes(x, y, 2);
        self.lemma_pixel_bytes(x, y, 3);
    }

    /// On a surface at least `frame_count` pixels wide, the progress bar
    /// is the first `frame_count` pixels of the top row: they are green,
    /// and the rest of that row is as it was.
    pub proof fn lemma_progress_top_row(self, frame_count: nat, x: int)
        requires
            self.wf(),
            self.contains(x, 0),
            frame_count <= self.width,
        ensures
            self.with_progress(frame_count).pixel(x, 0) == if x < frame_count {
                rgba(PROGRESS_COLOR)
            } else {
                self.pixel(x, 0)
            },
    {
        self.lemma_progress_pixel(frame_count, x, 0);
        assert(0 * self.width == 0) by (nonlinear_arith);
    }

    /// Drawn on a cleared surface at least `frame_count` pixels wide, the
    /// progress bar leaves exactly the first `frame_count` pixels of the
    /// top row green, and the rest of that row clear.
    pub proof fn lemma_progress_after_clear(self, frame_count: nat, x: int)
        requires
            self.wf(),
            self.contains(x, 0),
            frame_count <= self.width,
        ensures
            self.cleared().with_progress(frame_count).pixel(x, 0) == rgba(PROGRESS_COLOR) <==> x
                < frame_count,
            x >= frame_count ==> self.cleared().with_progress(frame_count).pixel(x, 0) == (
                0u8,
                0u8,
                0u8,
                0u8,
            ),
    {
        let clear = self.cleared();
        clear.lemma_progress_top_row(frame_count, x);
        clear.lemma_progress_pixel(frame_count, x, 0);
        clear.lemma_pixel_bytes(x, 0, 0);
    }

    /// Drawn on a cleared surface at least `frame_count` pixels wide, the
    /// progress bar makes exactly `frame_count` pixels of the top row
    /// green: those of the columns from 0 up to `frame_count`.
    pub proof fn lemma_progress_count(self, frame_count: nat)
        requires
            self.wf(),
            self.height > 0,
            frame_count <= self.width,
        ensures
            self.cleared().with_progress(frame_count).top_row_of(PROGRESS_COLOR) == set_int_range(
                0,
                frame_count as int,
            ),
            self.cleared().with_progress(frame_count).top_row_of(PROGRESS_COLOR).finite(),
            self.cleared().with_progress(frame_count).top_row_of(PROGRESS_COLOR).len()
                == frame_count,
    {
        let drawn = self.cleared().with_progress(frame_count);
        let green = drawn.top_row_of(PROGRESS_COLOR);
        let bar = set_int_range(0, frame_count as int);
        assert forall|x: int| green.contains(x) == bar.contains(x) by {
            if self.contains(x, 0) {
                self.lemma_progress_after_clear(frame_count, x);
            }
        }
        assert(green =~= bar);
        lemma_int_range(0, frame_count as int);
    }
}

impl Raster {
    /// A fill under way: the rows above `y` are done, and of row `y` the
    /// columns left of `x`.
    spec fn fill_progress(self, rect: RectArea, color: u32, y: int, x: int) -> Seq<u8> {
        Seq::new(
            self.bytes.len(),
            |i: int|
                {
                    let row = self.row_of(i);
                    let col = self.column_of(i);
                    if rect.covers(col, row) && (row < y || (row == y && col < x)) {
                        channel(color, i % 4)
                    } else {
                        self.bytes[i]
                    }
                },
        )
    }

    proof fn lemma_fill_begins(self, rect: RectArea, color: u32)
        ensures
            self.fill_progress(rect, color, rect.top_left.y as int, rect.top_left.x as int)
                == self.bytes,
    {
        assert(self.fill_progress(rect, color, rect.top_left.y as int, rect.top_left.x as int)
            =~= self.bytes);
    }

    proof fn lemma_fill_pixel_done(
        self,
        rect: RectArea,
        color: u32,
        x: int,
        y: int,
        before: Seq<u8>,
        after: Seq<u8>,
    )
        requires
            self.wf(),
            self.contains(x, y),
            rect.covers(x, y),
            before == self.fill_progress(rect, color, y, x),
            after == before.update(self.offset(x, y), channel(color, 0)).update(
                self.offset(x, y) + 1,
                channel(color, 1),
            ).update(self.offset(x, y) + 2, channel(color, 2)).update(
                self.offset(x, y) + 3,
                channel(color, 3),
            ),
        ensures
            after == self.fill_progress(rect, color, y, x + 1),
    {
        let goal = self.fill_progress(rect, color, y, x + 1);
        self.lemma_pixel_bytes(x, y, 0);
        self.lemma_pixel_bytes(x, y, 1);
        self.lemma_pixel_bytes(x, y, 2);
        self.lemma_pixel_bytes(x, y, 3);
        assert forall|i: int| 0 <= i < after.len() implies after[i] == goal[i] by {
            self.lemma_byte_pixel(i);
        }
        assert(after =~= goal);
    }

    proof fn lemma_fill_row_done(self, rect: RectArea, color: u32, y: int, x: int)
        requires
            self.wf(),
            x >= self.width || x >= rect.top_left.x + rect.dimensions.w,
        ensures
            self.fill_progress(rect, color, y, x) == self.fill_progress(
                rect,
                color,
                y + 1,
                rect.top_left.x as int,
            ),
    {
        let done = self.fill_progress(rect, color, y, x);
        let next = self.fill_progress(rect, color, y + 1, rect.top_left.x as int);
        assert forall|i: int| 0 <= i < done.len() implies done[i] == next[i] by {
            self.lemma_byte_pixel(i);
        }
        assert(done =~= next);
    }

    proof fn lemma_fill_ends(self, rect: RectArea, color: u32, y: int)
        requires
            self.wf(),
            y >= self.height || y >= rect.top_left.y + rect.dimensions.h,
        ensures
            self.fill_progress(rect, color, y, rect.top_left.x as int) == self.filled(
                rect,
                color,
            ).bytes,
    {
        let done = self.fill_progress(rect, color, y, rect.top_left.x as int);
        let goal = self.filled(rect, color).bytes;
        assert forall|i: int| 0 <= i < done.len() implies done[i] == goal[i] by {
            self.lemma_byte_pixel(i);
        }
        assert(done =~= goal);
    }
}

/// Where a span that starts at `start` and is `length` long ends, cut
/// off at `limit`.
fn clipped_end(start: u32, length: u32, limit: u32) -> (end: u32)
    ensures
        end == if start + length < limit {
            start + length
        } else {
            limit as int
        },
{
    if (start as u64) + (length as u64) < (limit as u64) {
        start + length
    } else {
        limit
    }
}

/// Fills the rectangle with the colour, pixel by pixel, on the surface's
/// own buffer. What lies beyond the surface's right or bottom edge is
/// cut off; nothing wraps round into another row. A rectangle with no
/// width or no height leaves the surface untouched.
pub fn rectangle_filled(web_context: &mut WebContext2d, rect: &RectArea, color: u32)
    ensures
        final(web_context)@.wf(),
        final(web_context)@ == old(web_context)@.filled(*rect, color),
        rect.is_empty() ==> final(web_context)@ == old(web_context)@,
{
    let start_x: u32 = rect.top_left.x;
    let start_y: u32 = rect.top_left.y;
    let canvas_h: u32 = web_context.height();
    let ghost before: Raster = web_context@;

    // Nothing to draw here
    if rect.dimensions.w == 0 || rect.dimensions.h == 0 {
        proof {
            before.lemma_filled_empty(*rect, color);
        }
        return;
    }
    let canvas_w: u32 = web_context.width();
    let end_x: u32 = clipped_end(start_x, rect.dimensions.w, canvas_w);
    let end_y: u32 = clipped_end(start_y, rect.dimensions.h, canvas_h);

    let mut data: Vec<u8> = web_context.get_image_data();
    let (r, g, b, a): Rgba = channels(color);

    let mut y: u32 = start_y;
    proof {
        before.lemma_fill_begins(*rect, color);
    }
    while y < end_y
        invariant
            before.wf(),
            before.width == canvas_w,
            before.height == canvas_h,
            start_x == rect.top_left.x,
            start_y == rect.top_left.y,
            start_y <= y,
            end_x <= canvas_w,
            end_x <= start_x + rect.dimensions.w,
            end_x == canvas_w || end_x == start_x + rect.dimensions.w,
            end_y <= canvas_h,
            end_y <= start_y + rect.dimensions.h,
            (r, g, b, a) == rgba(color),
            data@ == before.fill_progress(*rect, color, y as int, start_x as int),
        decreases end_y - y,
    {
        let mut x: u32 = start_x;
        while x < end_x
            invariant
                before.wf(),
                before.width == canvas_w,
                before.height == canvas_h,
                start_x == rect.top_left.x,
                start_y == rect.top_left.y,
                start_x <= x,
                start_y <= y < end_y,
                end_x <= canvas_w,
                end_x <= start_x + rect.dimensions.w,
                end_y <= canvas_h,
                end_y <= start_y + rect.dimensions.h,
                (r, g, b, a) == rgba(color),
                data@ == before.fill_progress(*rect, color, y as int, x as int),
            decreases end_x - x,
        {
            let row: usize = y as usize;
            let column: usize = x as usize;
            let stride: usize = canvas_w as usize;
            proof {
                before.lemma_pixel_bytes(x as int, y as int, 0);
                assert(0 <= row * stride) by (nonlinear_arith);
                assert(data.len() <= usize::MAX);
            }
            let ghost row_done: Seq<u8> = data@;
            // Which pixel in the buffer is filled in next.
            let pixel_index: usize = 4 * (row * stride + column);
            // Apply the color per Red, Green, Blue, and Alpha channels
            data.set(pixel_index, r);
            data.set(pixel_index + 1, g);
            data.set(pixel_index + 2, b);
            data.set(pixel_index + 3, a);
            proof {
                before.lemma_fill_pixel_done(
                    *rect,
                    color,
                    x as int,
                    y as int,
                    row_done,
                    data@,
                );
            }
            x += 1;
        }
        proof {
            before.lemma_fill_row_done(*rect, color, y as int, x as int);
        }
        y += 1;
    }
    proof {
        before.lemma_fill_ends(*rect, color, y as int);
        assert(before.filled(*rect, color) == before.written(data@));
    }
    // Put the changed buffer back onto the surface: it has kept its length
    let _ = web_context.put_image_data(data);
}

/// Draws the progress bar for a frame: one pixel of opaque green for
/// each frame so far, from the start of the buffer on, which is the top
/// row from its left end. The bar stops where the buffer ends.
pub fn progress_bar(web_context: &mut WebContext2d, frame_count: u32)
    ensures
        final(web_context)@.wf(),
        final(web_context)@ == old(web_context)@.with_progress(frame_count as nat),
{
    let ghost before: Raster = web_context@;
    let mut data: Vec<u8> = web_context.get_image_data();
    let pixels: usize = data.len() / 4;
    let count: usize = if (frame_count as usize) < pixels {
        frame_count as usize
    } else {
        pixels
    };
    let mut drawn: usize = 0;
    while drawn < count
        invariant
            drawn <= count <= pixels,
            count == frame_count || (count == pixels && pixels <= frame_count),
            pixels == before.bytes.len() / 4,
            data@ == before.with_progress(drawn as nat).bytes,
        decreases count - drawn,
    {
        assert(data.len() <= usize::MAX);
        let i: usize = 4 * drawn;
        data.set(i, 0x00);  // Red
        data.set(i + 1, 0xff);  // Green
        data.set(i + 2, 0x00);  // Blue
        data.set(i + 3, 0xff);  // Alpha
        drawn += 1;
        assert(data@ =~= before.with_progress(drawn as nat).bytes);
    }
    assert(data@ =~= before.with_progress(frame_count as nat).bytes);
    assert(before.with_progress(frame_count as nat) == before.written(data@));
    let _ = web_context.put_image_data(data);
}

} // verus!

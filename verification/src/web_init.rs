//! The drawing surface and how it is bound.
//!
//! The surface is held as plain values: its size in device pixels and its
//! RGBA bytes, four per pixel, rows one after another from the top, with
//! no padding between rows. The host's canvas is kept in step with it by
//! whoever owns the page.

use vstd::arithmetic::div_mod::{lemma_fundamental_div_mod, lemma_fundamental_div_mod_converse};
use vstd::prelude::*;

use crate::color::Rgba;

verus! {

/// What a surface holds, as mathematics: a size and a sequence of bytes.
pub struct Raster {
    pub width: nat,
    pub height: nat,
    pub bytes: Seq<u8>,
}

impl Raster {
    /// The buffer has four bytes for each pixel of the surface.
    pub open spec fn wf(self) -> bool {
        self.bytes.len() == 4 * (self.width * self.height)
    }

    /// Whether column `x`, row `y` is a pixel of the surface.
    pub open spec fn contains(self, x: int, y: int) -> bool {
        0 <= x < self.width && 0 <= y < self.height
    }

    /// Where in the buffer the pixel at column `x`, row `y` begins.
    pub open spec fn offset(self, x: int, y: int) -> int {
        4 * (y * self.width + x)
    }

    /// The row of the pixel that byte `i` of the buffer belongs to.
    pub open spec fn row_of(self, i: int) -> int {
        (i / 4) / (self.width as int)
    }

    /// The column of the pixel that byte `i` of the buffer belongs to.
    pub open spec fn column_of(self, i: int) -> int {
        (i / 4) % (self.width as int)
    }

    /// The four channels of the pixel at column `x`, row `y`.
    pub open spec fn pixel(self, x: int, y: int) -> Rgba {
        let at = self.offset(x, y);
        (self.bytes[at], self.bytes[at + 1], self.bytes[at + 2], self.bytes[at + 3])
    }

    /// The same surface with every pixel transparent black.
    pub open spec fn cleared(self) -> Raster {
        Raster { bytes: Seq::new(self.bytes.len(), |i: int| 0u8), ..self }
    }

    /// The same surface holding `data` in place of its bytes.
    pub open spec fn written(self, data: Seq<u8>) -> Raster {
        Raster { bytes: data, ..self }
    }

    /// A pixel of the surface lies wholly inside the buffer, and each of
    /// its four bytes leads back to the pixel's column and row.
    pub proof fn lemma_pixel_bytes(self, x: int, y: int, k: int)
        requires
            self.wf(),
            self.contains(x, y),
            0 <= k < 4,
        ensures
            0 <= self.offset(x, y),
            self.offset(x, y) + 3 < self.bytes.len(),
            self.row_of(self.offset(x, y) + k) == y,
            self.column_of(self.offset(x, y) + k) == x,
            (self.offset(x, y) + k) % 4 == k,
            (self.offset(x, y) + k) / 4 == y * self.width + x,
    {
        let w = self.width as int;
        let h = self.height as int;
        assert(y * w + x < w * h && 0 <= y * w) by (nonlinear_arith)
            requires
                0 <= x < w,
                0 <= y < h,
        ;
        lemma_fundamental_div_mod_converse(y * w + x, w, y, x);
    }

    /// Every byte of the buffer belongs to exactly one pixel of the
    /// surface: the one at its column and row, at position `i % 4`.
    pub proof fn lemma_byte_pixel(self, i: int)
        requires
            self.wf(),
            0 <= i < self.bytes.len(),
        ensures
            self.contains(self.column_of(i), self.row_of(i)),
            i == self.offset(self.column_of(i), self.row_of(i)) + i % 4,
    {
        let w = self.width as int;
        let h = self.height as int;
        let p = i / 4;
        assert(w > 0) by (nonlinear_arith)
            requires
                0 <= w,
                0 < 4 * (w * h),
        ;
        lemma_fundamental_div_mod(p, w);
        let q = p / w;
        let r = p % w;
        assert(0 <= q < h) by (nonlinear_arith)
            requires
                0 <= p < w * h,
                p == w * q + r,
                0 <= r < w,
        ;
        assert(w * q == q * w) by (nonlinear_arith);
    }

    /// Reading a surface and writing the bytes back unchanged leaves the
    /// surface as it was, so a second reading gives the same bytes.
    pub proof fn lemma_write_back_unchanged(self)
        ensures
            self.written(self.bytes) == self,
            self.written(self.bytes).bytes == self.bytes,
    {
    }
}

/// A surface bound for drawing: the canvas and its 2D context, as far as
/// drawing reads and changes them.
pub struct WebContext2d {
    width: u32,
    height: u32,
    data: Vec<u8>,
}

/// What the page gave when it was asked for the canvas and its 2D
/// context: the first step that failed, or the canvas's size.
#[derive(Clone, Copy, Debug, PartialEq, Eq, Structural)]
pub enum CanvasLookup {
    /// No element of the page carries the id.
    ElementMissing,
    /// The element with the id is not a canvas.
    NotACanvas,
    /// Asking the canvas for its 2D context raised an error.
    ContextRefused,
    /// The canvas has no 2D context to give.
    ContextUnavailable,
    /// What the canvas gave is not a 2D rendering context.
    ContextOfOtherKind,
    /// The canvas and its 2D context are there; the canvas measures
    /// `width` by `height` device pixels.
    Found { width: u32, height: u32 },
}

/// Why a surface could not be bound.
#[derive(Clone, Copy, Debug, PartialEq, Eq, Structural)]
pub enum BindError {
    /// No element of the page carries the id.
    NotFound,
    /// The element with the id is not a drawing surface.
    WrongKind,
    /// The 2D context could not be had.
    NoContext,
}

/// Why a whole-buffer write was turned down.
#[derive(Clone, Copy, Debug, PartialEq, Eq, Structural)]
pub enum SurfaceError {
    /// The bytes handed over are not four per pixel of the surface.
    SizeMismatch,
}

impl View for WebContext2d {
    type V = Raster;

    closed spec fn view(&self) -> Raster {
        Raster { width: self.width as nat, height: self.height as nat, bytes: self.data@ }
    }
}

impl WebContext2d {
    #[verifier::type_invariant]
    spec fn inv(self) -> bool {
        self@.wf()
    }

    /// A transparent-black surface of the given size, unless its buffer
    /// would be longer than the machine can address.
    pub fn new(width: u32, height: u32) -> (surface: Option<WebContext2d>)
        ensures
            surface is Some <==> 4 * (width * height) <= usize::MAX,
            surface matches Some(s) ==> {
                &&& s@.wf()
                &&& s@.width == width
                &&& s@.height == height
                &&& forall|i: int| 0 <= i < s@.bytes.len() ==> s@.bytes[i] == 0
                &&& s@ == s@.cleared()
            },
    {
        let pixels: usize = match (width as usize).checked_mul(height as usize) {
            Some(n) => n,
            None => {
                return None;
            },
        };
        let len: usize = match pixels.checked_mul(4) {
            Some(n) => n,
            None => {
                return None;
            },
        };
        let data: Vec<u8> = vec![0u8; len];
        let surface = WebContext2d { width, height, data };
        assert(surface@.bytes =~= surface@.cleared().bytes);
        Some(surface)
    }

    /// The surface's width in device pixels.
    pub fn width(&self) -> (w: u32)
        ensures
            w == self@.width,
            self@.wf(),
    {
        proof {
            use_type_invariant(self);
        }
        self.width
    }

    /// The surface's height in device pixels.
    pub fn height(&self) -> (h: u32)
        ensures
            h == self@.height,
            self@.wf(),
    {
        proof {
            use_type_invariant(self);
        }
        self.height
    }

    /// A copy of the whole pixel buffer.
    pub fn get_image_data(&self) -> (data: Vec<u8>)
        ensures
            data@ == self@.bytes,
            self@.wf(),
    {
        proof {
            use_type_invariant(self);
        }
        let data: Vec<u8> = self.data.clone();
        assert(data@ =~= self.data@);
        data
    }

    /// Replaces the whole pixel buffer. Bytes that are not four per pixel
    /// are turned down and the surface stays as it was.
    pub fn put_image_data(&mut self, data: Vec<u8>) -> (done: Result<(), SurfaceError>)
        ensures
            final(self)@.wf(),
            done is Ok <==> data@.len() == old(self)@.bytes.len(),
            done is Ok ==> final(self)@ == old(self)@.written(data@),
            done is Err ==> final(self)@ == old(self)@,
            done matches Err(e) ==> e == SurfaceError::SizeMismatch,
    {
        proof {
            use_type_invariant(&*self);
        }
        if data.len() == self.data.len() {
            self.data = data;
            Ok(())
        } else {
            Err(SurfaceError::SizeMismatch)
        }
    }

    /// Clears the whole surface to transparent black.
    pub fn clear(&mut self)
        ensures
            final(self)@.wf(),
            final(self)@ == old(self)@.cleared(),
    {
        proof {
            use_type_invariant(&*self);
        }
        let len: usize = self.data.len();
        let data: Vec<u8> = vec![0u8; len];
        assert(data@ =~= self@.cleared().bytes);
        self.data = data;
    }
}

/// The error that a lookup ends in, if it ends in one.
pub open spec fn lookup_error(lookup: CanvasLookup) -> Option<BindError> {
    match lookup {
        CanvasLookup::ElementMissing => Some(BindError::NotFound),
        CanvasLookup::NotACanvas => Some(BindError::WrongKind),
        CanvasLookup::ContextRefused => Some(BindError::NoContext),
        CanvasLookup::ContextUnavailable => Some(BindError::NoContext),
        CanvasLookup::ContextOfOtherKind => Some(BindError::NoContext),
        CanvasLookup::Found { width, height } => if 4 * (width * height) <= usize::MAX {
            None
        } else {
            Some(BindError::NoContext)
        },
    }
}

/// Binds the surface from what the page gave for the canvas's id. A
/// canvas that was found is bound as a clear surface of its size; a
/// missing element, an element of another kind and a context that
/// cannot be had each give their error. A canvas whose buffer the
/// machine could not address has no context to draw on.
pub fn get_canvas_and_context(lookup: CanvasLookup) -> (bound: Result<WebContext2d, BindError>)
    ensures
        match lookup_error(lookup) {
            Some(e) => bound == Err::<WebContext2d, BindError>(e),
            None => bound is Ok,
        },
        bound matches Ok(surface) ==> {
            &&& lookup matches CanvasLookup::Found { width, height }
            &&& surface@.wf()
            &&& surface@.width == width
            &&& surface@.height == height
            &&& surface@ == surface@.cleared()
        },
{
    match lookup {
        CanvasLookup::ElementMissing => Err(BindError::NotFound),
        CanvasLookup::NotACanvas => Err(BindError::WrongKind),
        CanvasLookup::ContextRefused => Err(BindError::NoContext),
        CanvasLookup::ContextUnavailable => Err(BindError::NoContext),
        CanvasLookup::ContextOfOtherKind => Err(BindError::NoContext),
        CanvasLookup::Found { width, height } => match WebContext2d::new(width, height) {
            Some(surface) => Ok(surface),
            None => Err(BindError::NoContext),
        },
    }
}

} // verus!

//! Pixel and bitmap data model.
//!
//! A `Pixel` is four bytes in the video surface's native order (blue, green,
//! red, transparency flag).  A `BitMap` owns a row-major pixel buffer of
//! exactly `width * height` entries; its mathematical view `BitMapView`
//! carries the dimensions and the pixel sequence, addressed by the spec
//! function `pix(cx, cy)`.

use vstd::arithmetic::div_mod::{
    lemma_div_pos_is_pos, lemma_fundamental_div_mod, lemma_fundamental_div_mod_converse,
    lemma_mod_bound, lemma_multiply_divide_lt,
};
use vstd::arithmetic::mul::lemma_mul_is_commutative;
use vstd::prelude::*;

verus! {

/// Transparency-flag value that marks a pixel as "do not draw"; every other
/// value (including `0x00`) means fully opaque.
pub const TRANSPARENT: u8 = 0xff;

/// One pixel of the 32-bit video surface format.
#[derive(Clone, Copy, Debug, PartialEq, Eq, Structural)]
pub struct Pixel {
    pub blue: u8,
    pub green: u8,
    pub red: u8,
    pub alpha: u8,
}

impl Pixel {
    /// An opaque pixel with the given colour components.
    pub fn new(red: u8, green: u8, blue: u8) -> (p: Pixel)
        ensures
            p == (Pixel { blue, green, red, alpha: 0x00u8 }),
    {
        Pixel { alpha: 0x00, red, green, blue }
    }

    /// Compose `px` over `self`.  The transparency byte is a hard flag, not a
    /// blend factor: a marked pixel leaves `self`, anything else replaces it.
    pub fn blend(&self, px: Pixel) -> (r: Pixel)
        ensures
            r == (if px.alpha == TRANSPARENT {
                *self
            } else {
                px
            }),
    {
        if px.alpha == TRANSPARENT {
            *self
        } else {
            px
        }
    }
}

/// Mathematical view of a bitmap: dimensions and the row-major pixel
/// sequence.
#[verifier::ext_equal]
pub ghost struct BitMapView {
    pub width: nat,
    pub height: nat,
    pub pixels: Seq<Pixel>,
}

impl BitMapView {
    /// The buffer holds exactly one pixel per coordinate.
    pub open spec fn wf(self) -> bool {
        self.pixels.len() == self.width * self.height
    }

    /// Flat row-major index of column `cx` in row `cy`.
    pub open spec fn idx(self, cx: int, cy: int) -> int {
        cy * self.width + cx
    }

    pub open spec fn in_bounds(self, cx: int, cy: int) -> bool {
        0 <= cx < self.width && 0 <= cy < self.height
    }

    /// The pixel at column `cx` of row `cy`.
    pub open spec fn pix(self, cx: int, cy: int) -> Pixel {
        self.pixels[self.idx(cx, cy)]
    }
}

/// The row-major sequence of `width * height` pixels whose entry for
/// `(cx, cy)` is `f(cx, cy)`.
pub open spec fn mk_pixels(width: nat, height: nat, f: spec_fn(int, int) -> Pixel) -> Seq<Pixel> {
    Seq::new(width * height, |i: int| f(i % (width as int), i / (width as int)))
}

/// The well-formed view with pixel `f(cx, cy)` at every coordinate.
pub open spec fn mk_bitmap(width: nat, height: nat, f: spec_fn(int, int) -> Pixel) -> BitMapView {
    BitMapView { width, height, pixels: mk_pixels(width, height, f) }
}

/// An in-bounds coordinate's flat index stays inside the buffer.
pub proof fn lemma_idx_in_range(b: BitMapView, cx: int, cy: int)
    requires
        b.wf(),
        b.in_bounds(cx, cy),
    ensures
        0 <= b.idx(cx, cy) < b.pixels.len(),
{
    assert(0 <= cy * b.width + cx < b.width * b.height) by (nonlinear_arith)
        requires
            0 <= cx < b.width,
            0 <= cy < b.height,
    ;
}

/// Distinct in-bounds coordinates have distinct flat indices.
pub proof fn lemma_idx_injective(b: BitMapView, x1: int, y1: int, x2: int, y2: int)
    requires
        b.wf(),
        b.in_bounds(x1, y1),
        b.in_bounds(x2, y2),
        b.idx(x1, y1) == b.idx(x2, y2),
    ensures
        x1 == x2 && y1 == y2,
{
    lemma_fundamental_div_mod_converse(b.idx(x1, y1), b.width as int, y1, x1);
    lemma_fundamental_div_mod_converse(b.idx(x2, y2), b.width as int, y2, x2);
}

/// `mk_bitmap(width, height, f)` holds `f(cx, cy)` at every in-bounds
/// coordinate.
pub broadcast proof fn lemma_mk_bitmap_pix(
    width: nat,
    height: nat,
    f: spec_fn(int, int) -> Pixel,
    cx: int,
    cy: int,
)
    requires
        0 <= cx < width,
        0 <= cy < height,
    ensures
        #[trigger] mk_bitmap(width, height, f).pix(cx, cy) == f(cx, cy),
{
    let b = mk_bitmap(width, height, f);
    lemma_idx_in_range(b, cx, cy);
    lemma_fundamental_div_mod_converse(b.idx(cx, cy), width as int, cy, cx);
}

/// Views with the same dimensions and the same pixel at every in-bounds
/// coordinate are equal.
pub proof fn lemma_bitmap_eq(a: BitMapView, b: BitMapView)
    requires
        a.wf(),
        b.wf(),
        a.width == b.width,
        a.height == b.height,
        forall|cx: int, cy: int| a.in_bounds(cx, cy) ==> a.pix(cx, cy) == b.pix(cx, cy),
    ensures
        a == b,
{
    assert forall|i: int| 0 <= i < a.pixels.len() implies a.pixels[i] == b.pixels[i] by {
        assert(a.width > 0) by (nonlinear_arith)
            requires
                0 <= i < a.width * a.height,
        ;
        let w = a.width as int;
        let h = a.height as int;
        let cx = i % w;
        let cy = i / w;
        lemma_mod_bound(i, w);
        lemma_div_pos_is_pos(i, w);
        assert(i < w * h) by (nonlinear_arith)
            requires
                0 <= i < a.width * a.height,
                w == a.width as int,
                h == a.height as int,
        ;
        lemma_multiply_divide_lt(i, w, h);
        lemma_fundamental_div_mod(i, w);
        lemma_mul_is_commutative(w, cy);
        assert(i == cy * w + cx);
        assert(a.pix(cx, cy) == b.pix(cx, cy));
        assert(a.pixels[i] == a.pix(cx, cy));
        assert(b.pixels[i] == b.pix(cx, cy));
    }
    assert(a.pixels =~= b.pixels);
}

/// An owned rectangular pixel buffer in row-major order.
pub struct BitMap {
    pub width: u32,
    pub height: u32,
    pub pxs: Vec<Pixel>,
}

impl View for BitMap {
    type V = BitMapView;

    open spec fn view(&self) -> BitMapView {
        BitMapView {
            width: self.width as nat,
            height: self.height as nat,
            pixels: self.pxs@,
        }
    }
}

impl BitMap {
    /// A `width` by `height` bitmap filled with `px`.
    pub fn new(width: u32, height: u32, px: Pixel) -> (r: BitMap)
        requires
            width * height <= usize::MAX,
        ensures
            r@ == mk_bitmap(width as nat, height as nat, (|cx: int, cy: int| px)),
            r@.wf(),
            r@.width == width,
            r@.height == height,
    {
        let n: usize = (width as usize) * (height as usize);
        let mut pxs: Vec<Pixel> = Vec::new();
        while pxs.len() < n
            invariant
                pxs@.len() <= n,
                forall|i: int| 0 <= i < pxs@.len() ==> pxs@[i] == px,
            decreases n - pxs@.len(),
        {
            pxs.push(px);
        }
        let r = BitMap { width, height, pxs };
        proof {
            let m = mk_bitmap(width as nat, height as nat, (|cx: int, cy: int| px));
            assert forall|cx: int, cy: int| r@.in_bounds(cx, cy) implies r@.pix(cx, cy) == m.pix(
                cx,
                cy,
            ) by {
                lemma_idx_in_range(r@, cx, cy);
                lemma_mk_bitmap_pix(width as nat, height as nat, (|cx: int, cy: int| px), cx, cy);
            }
            lemma_bitmap_eq(r@, m);
        }
        r
    }

    /// Read the pixel at `(cx, cy)`.
    pub fn get_pix(&self, cx: u32, cy: u32) -> (p: Pixel)
        requires
            self@.wf(),
            self@.in_bounds(cx as int, cy as int),
        ensures
            p == self@.pix(cx as int, cy as int),
    {
        proof {
            lemma_idx_in_range(self@, cx as int, cy as int);
        }
        let _len = self.pxs.len();  // the flat index fits because the buffer does
        let i: usize = (cy as usize) * (self.width as usize) + (cx as usize);
        self.pxs[i]
    }

    /// Overwrite the pixel at `(cx, cy)`, leaving every other pixel alone.
    pub fn set_pix(&mut self, cx: u32, cy: u32, p: Pixel)
        requires
            old(self)@.wf(),
            old(self)@.in_bounds(cx as int, cy as int),
        ensures
            final(self)@.wf(),
            final(self)@.width == old(self)@.width,
            final(self)@.height == old(self)@.height,
            final(self)@.pix(cx as int, cy as int) == p,
            forall|ox: int, oy: int|
                old(self)@.in_bounds(ox, oy) && !(ox == cx as int && oy == cy as int)
                    ==> final(self)@.pix(ox, oy) == old(self)@.pix(ox, oy),
    {
        proof {
            lemma_idx_in_range(self@, cx as int, cy as int);
        }
        let _len = self.pxs.len();  // the flat index fits because the buffer does
        let i: usize = (cy as usize) * (self.width as usize) + (cx as usize);
        self.pxs.set(i, p);
        proof {
            assert forall|ox: int, oy: int|
                old(self)@.in_bounds(ox, oy) && !(ox == cx as int && oy == cy as int)
                    implies final(self)@.pix(ox, oy) == old(self)@.pix(ox, oy) by {
                lemma_idx_in_range(old(self)@, ox, oy);
                if old(self)@.idx(ox, oy) == old(self)@.idx(cx as int, cy as int) {
                    lemma_idx_injective(old(self)@, ox, oy, cx as int, cy as int);
                }
            }
        }
    }

    /// Give up the pixel storage without freeing it.  The caller uses this
    /// when the buffer aliases memory the process does not own (the
    /// memory-mapped video surface), which must never be handed back to the
    /// allocator.
    ///
    /// Relies on `std::mem::forget`: the value is consumed and its
    /// destructor never runs.
    #[verifier::external_body]
    pub fn leak(self) {
        std::mem::forget(self.pxs);
    }
}

} // verus!

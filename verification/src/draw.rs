//! Drawing primitives over bitmaps.
//!
//! Every primitive is specified by a transformer spec function that builds
//! the resulting view pixel by pixel (`extract_spec`, `blit_spec`, ...); the
//! executable function's contract says its result is exactly that view.  All
//! bounds are preconditions: the compositor validates placement once, so the
//! per-frame path carries no checks.

use crate::bitmap::{
    lemma_bitmap_eq, lemma_mk_bitmap_pix, mk_bitmap, BitMap, BitMapView, Pixel, TRANSPARENT,
};
use vstd::prelude::*;

verus! {

broadcast use lemma_mk_bitmap_pix;

/// Column `cx` of row `cy` lies in the rectangle of size `w` by `h` whose
/// top-left corner is `(x, y)`.
pub open spec fn in_rect(x: int, y: int, w: int, h: int, cx: int, cy: int) -> bool {
    x <= cx < x + w && y <= cy < y + h
}

/// The `w` by `h` rectangle of `src` whose top-left corner is `(x, y)`.
pub open spec fn extract_spec(src: BitMapView, x: int, y: int, w: nat, h: nat) -> BitMapView {
    mk_bitmap(w, h, |cx: int, cy: int| src.pix(x + cx, y + cy))
}

/// `dst` with `src` copied over it, `src`'s top-left corner at `(x, y)`.
pub open spec fn blit_spec(src: BitMapView, dst: BitMapView, x: int, y: int) -> BitMapView {
    mk_bitmap(
        dst.width,
        dst.height,
        |cx: int, cy: int|
            if in_rect(x, y, src.width as int, src.height as int, cx, cy) {
                src.pix(cx - x, cy - y)
            } else {
                dst.pix(cx, cy)
            },
    )
}

/// Copy the `w` by `h` rectangle of `src` at `(x, y)` into a new bitmap.
pub fn extract(src: &BitMap, x: u32, y: u32, w: u32, h: u32) -> (r: BitMap)
    requires
        src@.wf(),
        x + w <= src@.width,
        y + h <= src@.height,
    ensures
        r@ == extract_spec(src@, x as int, y as int, w as nat, h as nat),
        r@.wf(),
        r@.width == w,
        r@.height == h,
{
    let _len = src.pxs.len();  // bounds the extracted size by the source's
    proof {
        assert(w * h <= src@.width * src@.height) by (nonlinear_arith)
            requires
                w <= src@.width,
                h <= src@.height,
        ;
    }
    let mut r = BitMap::new(w, h, Pixel::new(0x00, 0x00, 0x00));
    let mut row: u32 = 0;
    while row < h
        invariant
            src@.wf(),
            r@.wf(),
            r@.width == w,
            r@.height == h,
            x + w <= src@.width,
            y + h <= src@.height,
            row <= h,
            forall|cx: int, cy: int|
                r@.in_bounds(cx, cy) && cy < row ==> r@.pix(cx, cy) == src@.pix(x + cx, y + cy),
        decreases h - row,
    {
        let mut col: u32 = 0;
        while col < w
            invariant
                src@.wf(),
                r@.wf(),
                r@.width == w,
                r@.height == h,
                x + w <= src@.width,
                y + h <= src@.height,
                row < h,
                col <= w,
                forall|cx: int, cy: int|
                    r@.in_bounds(cx, cy) && cy < row ==> r@.pix(cx, cy) == src@.pix(
                        x + cx,
                        y + cy,
                    ),
                forall|cx: int|
                    0 <= cx < col ==> r@.pix(cx, row as int) == src@.pix(x + cx, y + row),
            decreases w - col,
        {
            let p = src.get_pix(x + col, y + row);
            r.set_pix(col, row, p);
            col = col + 1;
        }
        row = row + 1;
    }
    proof {
        let e = extract_spec(src@, x as int, y as int, w as nat, h as nat);
        assert forall|cx: int, cy: int| r@.in_bounds(cx, cy) implies r@.pix(cx, cy) == e.pix(
            cx,
            cy,
        ) by {
            assert(e.pix(cx, cy) == src@.pix(x + cx, y + cy));
        }
        lemma_bitmap_eq(r@, e);
    }
    r
}

/// Copy every pixel of `src` into `dst`, `src`'s top-left corner at `(x, y)`.
pub fn blit(src: &BitMap, dst: &mut BitMap, x: u32, y: u32)
    requires
        src@.wf(),
        old(dst)@.wf(),
        x + src@.width <= old(dst)@.width,
        y + src@.height <= old(dst)@.height,
    ensures
        final(dst)@ == blit_spec(src@, old(dst)@, x as int, y as int),
        final(dst)@.wf(),
        final(dst)@.width == old(dst)@.width,
        final(dst)@.height == old(dst)@.height,
{
    let ghost dst0 = dst@;
    let mut row: u32 = 0;
    while row < src.height
        invariant
            src@.wf(),
            dst@.wf(),
            dst@.width == dst0.width,
            dst@.height == dst0.height,
            x + src@.width <= dst0.width,
            y + src@.height <= dst0.height,
            row <= src@.height,
            forall|cx: int, cy: int|
                dst0.in_bounds(cx, cy) ==> dst@.pix(cx, cy) == (
                if in_rect(x as int, y as int, src@.width as int, row as int, cx, cy) {
                    src@.pix(cx - x, cy - y)
                } else {
                    dst0.pix(cx, cy)
                }),
        decreases src@.height - row,
    {
        let mut col: u32 = 0;
        while col < src.width
            invariant
                src@.wf(),
                dst@.wf(),
                dst@.width == dst0.width,
                dst@.height == dst0.height,
                x + src@.width <= dst0.width,
                y + src@.height <= dst0.height,
                row < src@.height,
                col <= src@.width,
                forall|cx: int, cy: int|
                    dst0.in_bounds(cx, cy) ==> dst@.pix(cx, cy) == (
                    if in_rect(x as int, y as int, src@.width as int, row as int, cx, cy) || (cy
                        == y + row && x <= cx < x + col) {
                        src@.pix(cx - x, cy - y)
                    } else {
                        dst0.pix(cx, cy)
                    }),
            decreases src@.width - col,
        {
            let p = src.get_pix(col, row);
            dst.set_pix(x + col, y + row, p);
            col = col + 1;
        }
        row = row + 1;
    }
    proof {
        let result = blit_spec(src@, dst0, x as int, y as int);
        assert forall|cx: int, cy: int| dst@.in_bounds(cx, cy) implies dst@.pix(cx, cy)
            == result.pix(cx, cy) by {
            assert(dst0.in_bounds(cx, cy));
        }
        lemma_bitmap_eq(dst@, result);
    }
}

/// `dst` with `src` composed over it at `(x, y)`: a destination pixel is
/// replaced only where the source pixel is not marked transparent.
pub open spec fn blit_cutout_spec(src: BitMapView, dst: BitMapView, x: int, y: int) -> BitMapView {
    mk_bitmap(
        dst.width,
        dst.height,
        |cx: int, cy: int|
            if in_rect(x, y, src.width as int, src.height as int, cx, cy) && src.pix(
                cx - x,
                cy - y,
            ).alpha != TRANSPARENT {
                src.pix(cx - x, cy - y)
            } else {
                dst.pix(cx, cy)
            },
    )
}

/// Every pixel of `b` replaced by `px`.
pub open spec fn fill_spec(b: BitMapView, px: Pixel) -> BitMapView {
    mk_bitmap(b.width, b.height, |cx: int, cy: int| px)
}

/// `dst` with the `w` by `h` rectangle at `(x, y)` painted solid `px`.
pub open spec fn draw_rect_spec(
    dst: BitMapView,
    x: int,
    y: int,
    w: int,
    h: int,
    px: Pixel,
) -> BitMapView {
    mk_bitmap(
        dst.width,
        dst.height,
        |cx: int, cy: int|
            if in_rect(x, y, w, h, cx, cy) {
                px
            } else {
                dst.pix(cx, cy)
            },
    )
}

/// Four solid bands of thickness `t` drawn just inside the `w` by `h`
/// rectangle at `(x, y)`: top, bottom, left, right, in that order.
pub open spec fn draw_rect_stroke_spec(
    dst: BitMapView,
    x: int,
    y: int,
    w: int,
    h: int,
    px: Pixel,
    t: int,
) -> BitMapView {
    let top = draw_rect_spec(dst, x, y, w, t, px);
    let bot = draw_rect_spec(top, x, y + h - t, w, t, px);
    let left = draw_rect_spec(bot, x, y, t, h, px);
    draw_rect_spec(left, x + w - t, y, t, h, px)
}

/// Like the stroke, but drawn outward around the rectangle instead of
/// inside it.
pub open spec fn draw_rect_border_spec(
    dst: BitMapView,
    x: int,
    y: int,
    w: int,
    h: int,
    px: Pixel,
    t: int,
) -> BitMapView {
    draw_rect_stroke_spec(dst, x - t, y - t, w + 2 * t, h + 2 * t, px, t)
}

/// Copy `src` into `dst` at `(x, y)`, skipping every source pixel whose
/// transparency byte holds the marker value.
pub fn blit_cutout(src: &BitMap, dst: &mut BitMap, x: u32, y: u32)
    requires
        src@.wf(),
        old(dst)@.wf(),
        x + src@.width <= old(dst)@.width,
        y + src@.height <= old(dst)@.height,
    ensures
        final(dst)@ == blit_cutout_spec(src@, old(dst)@, x as int, y as int),
        final(dst)@.wf(),
        final(dst)@.width == old(dst)@.width,
        final(dst)@.height == old(dst)@.height,
{
    let ghost dst0 = dst@;
    let mut row: u32 = 0;
    while row < src.height
        invariant
            src@.wf(),
            dst@.wf(),
            dst@.width == dst0.width,
            dst@.height == dst0.height,
            x + src@.width <= dst0.width,
            y + src@.height <= dst0.height,
            row <= src@.height,
            forall|cx: int, cy: int|
                dst0.in_bounds(cx, cy) ==> dst@.pix(cx, cy) == (
                if in_rect(x as int, y as int, src@.width as int, row as int, cx, cy) && src@.pix(
                    cx - x,
                    cy - y,
                ).alpha != TRANSPARENT {
                    src@.pix(cx - x, cy - y)
                } else {
                    dst0.pix(cx, cy)
                }),
        decreases src@.height - row,
    {
        let mut col: u32 = 0;
        while col < src.width
            invariant
                src@.wf(),
                dst@.wf(),
                dst@.width == dst0.width,
                dst@.height == dst0.height,
                x + src@.width <= dst0.width,
                y + src@.height <= dst0.height,
                row < src@.height,
                col <= src@.width,
                forall|cx: int, cy: int|
                    dst0.in_bounds(cx, cy) ==> dst@.pix(cx, cy) == (
                    if (in_rect(x as int, y as int, src@.width as int, row as int, cx, cy) || (cy
                        == y + row && x <= cx < x + col)) && src@.pix(cx - x, cy - y).alpha
                        != TRANSPARENT {
                        src@.pix(cx - x, cy - y)
                    } else {
                        dst0.pix(cx, cy)
                    }),
            decreases src@.width - col,
        {
            let p = src.get_pix(col, row);
            if p.alpha != TRANSPARENT {
                dst.set_pix(x + col, y + row, p);
            }
            col = col + 1;
        }
        row = row + 1;
    }
    proof {
        let result = blit_cutout_spec(src@, dst0, x as int, y as int);
        assert forall|cx: int, cy: int| dst@.in_bounds(cx, cy) implies dst@.pix(cx, cy)
            == result.pix(cx, cy) by {
            assert(dst0.in_bounds(cx, cy));
        }
        lemma_bitmap_eq(dst@, result);
    }
}

/// Overwrite every pixel of `b` with `px`.
pub fn fill(b: &mut BitMap, px: Pixel)
    requires
        old(b)@.wf(),
    ensures
        final(b)@ == fill_spec(old(b)@, px),
        final(b)@.wf(),
        final(b)@.width == old(b)@.width,
        final(b)@.height == old(b)@.height,
{
    let ghost b0 = b@;
    let mut row: u32 = 0;
    while row < b.height
        invariant
            b@.wf(),
            b@.width == b0.width,
            b@.height == b0.height,
            row <= b@.height,
            forall|cx: int, cy: int|
                b0.in_bounds(cx, cy) ==> b@.pix(cx, cy) == (
                if cy < row {
                    px
                } else {
                    b0.pix(cx, cy)
                }),
        decreases b@.height - row,
    {
        let mut col: u32 = 0;
        while col < b.width
            invariant
                b@.wf(),
                b@.width == b0.width,
                b@.height == b0.height,
                row < b@.height,
                col <= b@.width,
                forall|cx: int, cy: int|
                    b0.in_bounds(cx, cy) ==> b@.pix(cx, cy) == (
                    if cy < row || (cy == row && cx < col) {
                        px
                    } else {
                        b0.pix(cx, cy)
                    }),
            decreases b@.width - col,
        {
            b.set_pix(col, row, px);
            col = col + 1;
        }
        row = row + 1;
    }
    proof {
        let result = fill_spec(b0, px);
        assert forall|cx: int, cy: int| b@.in_bounds(cx, cy) implies b@.pix(cx, cy) == result.pix(
            cx,
            cy,
        ) by {
            assert(b0.in_bounds(cx, cy));
        }
        lemma_bitmap_eq(b@, result);
    }
}

/// Paint the `w` by `h` rectangle of `dst` at `(x, y)` solid `px`.
pub fn draw_rect(dst: &mut BitMap, x: u32, y: u32, w: u32, h: u32, px: Pixel)
    requires
        old(dst)@.wf(),
        x + w <= old(dst)@.width,
        y + h <= old(dst)@.height,
    ensures
        final(dst)@ == draw_rect_spec(old(dst)@, x as int, y as int, w as int, h as int, px),
        final(dst)@.wf(),
        final(dst)@.width == old(dst)@.width,
        final(dst)@.height == old(dst)@.height,
{
    let ghost dst0 = dst@;
    let mut row: u32 = 0;
    while row < h
        invariant
            dst@.wf(),
            dst@.width == dst0.width,
            dst@.height == dst0.height,
            x + w <= dst0.width,
            y + h <= dst0.height,
            row <= h,
            forall|cx: int, cy: int|
                dst0.in_bounds(cx, cy) ==> dst@.pix(cx, cy) == (
                if in_rect(x as int, y as int, w as int, row as int, cx, cy) {
                    px
                } else {
                    dst0.pix(cx, cy)
                }),
        decreases h - row,
    {
        let mut col: u32 = 0;
        while col < w
            invariant
                dst@.wf(),
                dst@.width == dst0.width,
                dst@.height == dst0.height,
                x + w <= dst0.width,
                y + h <= dst0.height,
                row < h,
                col <= w,
                forall|cx: int, cy: int|
                    dst0.in_bounds(cx, cy) ==> dst@.pix(cx, cy) == (
                    if in_rect(x as int, y as int, w as int, row as int, cx, cy) || (cy == y + row
                        && x <= cx < x + col) {
                        px
                    } else {
                        dst0.pix(cx, cy)
                    }),
            decreases w - col,
        {
            dst.set_pix(x + col, y + row, px);
            col = col + 1;
        }
        row = row + 1;
    }
    proof {
        let result = draw_rect_spec(dst0, x as int, y as int, w as int, h as int, px);
        assert forall|cx: int, cy: int| dst@.in_bounds(cx, cy) implies dst@.pix(cx, cy)
            == result.pix(cx, cy) by {
            assert(dst0.in_bounds(cx, cy));
        }
        lemma_bitmap_eq(dst@, result);
    }
}

/// Draw the four bands of a stroked rectangle, fully inside `(x, y, w, h)`.
pub fn draw_rect_stroke(dst: &mut BitMap, x: u32, y: u32, w: u32, h: u32, px: Pixel, t: u32)
    requires
        old(dst)@.wf(),
        t <= w,
        t <= h,
        x + w <= old(dst)@.width,
        y + h <= old(dst)@.height,
    ensures
        final(dst)@ == draw_rect_stroke_spec(
            old(dst)@,
            x as int,
            y as int,
            w as int,
            h as int,
            px,
            t as int,
        ),
        final(dst)@.wf(),
        final(dst)@.width == old(dst)@.width,
        final(dst)@.height == old(dst)@.height,
{
    draw_rect(dst, x, y, w, t, px);
    draw_rect(dst, x, y + h - t, w, t, px);
    draw_rect(dst, x, y, t, h, px);
    draw_rect(dst, x + w - t, y, t, h, px);
}

/// Like `draw_rect_stroke`, but drawn outward around the rectangle.
pub fn draw_rect_border(dst: &mut BitMap, x: u32, y: u32, w: u32, h: u32, px: Pixel, t: u32)
    requires
        old(dst)@.wf(),
        t <= x,
        t <= y,
        x + w + t <= old(dst)@.width,
        y + h + t <= old(dst)@.height,
    ensures
        final(dst)@ == draw_rect_border_spec(
            old(dst)@,
            x as int,
            y as int,
            w as int,
            h as int,
            px,
            t as int,
        ),
        final(dst)@.wf(),
        final(dst)@.width == old(dst)@.width,
        final(dst)@.height == old(dst)@.height,
{
    draw_rect_stroke(dst, x - t, y - t, w + 2 * t, h + 2 * t, px, t);
}

/// Extracting a rectangle and blitting the result back at the same origin
/// reproduces the original bitmap exactly.
pub proof fn lemma_extract_blit_roundtrip(b: BitMapView, x: int, y: int, w: nat, h: nat)
    requires
        b.wf(),
        0 <= x,
        0 <= y,
        x + w <= b.width,
        y + h <= b.height,
    ensures
        blit_spec(extract_spec(b, x, y, w, h), b, x, y) == b,
{
    let e = extract_spec(b, x, y, w, h);
    let r = blit_spec(e, b, x, y);
    assert forall|cx: int, cy: int| r.in_bounds(cx, cy) implies r.pix(cx, cy) == b.pix(cx, cy) by {
        if in_rect(x, y, e.width as int, e.height as int, cx, cy) {
            assert(e.pix(cx - x, cy - y) == b.pix(x + (cx - x), y + (cy - y)));
        }
    }
    lemma_bitmap_eq(r, b);
}

/// A stroked rectangle whose bands lie inside `(x, y, w, h)` changes no
/// pixel outside that rectangle.
pub proof fn lemma_stroke_outside(
    dst: BitMapView,
    x: int,
    y: int,
    w: int,
    h: int,
    px: Pixel,
    t: int,
    cx: int,
    cy: int,
)
    requires
        0 <= cx < dst.width,
        0 <= cy < dst.height,
        0 <= t,
        t <= w,
        t <= h,
        !in_rect(x, y, w, h, cx, cy),
    ensures
        draw_rect_stroke_spec(dst, x, y, w, h, px, t).pix(cx, cy) == dst.pix(cx, cy),
{
    let top = draw_rect_spec(dst, x, y, w, t, px);
    let bot = draw_rect_spec(top, x, y + h - t, w, t, px);
    let left = draw_rect_spec(bot, x, y, t, h, px);
    let right = draw_rect_spec(left, x + w - t, y, t, h, px);
    assert(top.pix(cx, cy) == dst.pix(cx, cy));
    assert(bot.pix(cx, cy) == top.pix(cx, cy));
    assert(left.pix(cx, cy) == bot.pix(cx, cy));
    assert(right.pix(cx, cy) == left.pix(cx, cy));
}

/// A cutout blit never overwrites a destination pixel whose corresponding
/// source pixel carries the transparency marker, always overwrites a pixel
/// whose source pixel does not, and leaves everything outside the source
/// rectangle untouched — for arbitrary source and destination content.
pub proof fn lemma_blit_cutout_pointwise(
    src: BitMapView,
    dst: BitMapView,
    x: int,
    y: int,
    cx: int,
    cy: int,
)
    requires
        dst.in_bounds(cx, cy),
    ensures
        in_rect(x, y, src.width as int, src.height as int, cx, cy) && src.pix(
            cx - x,
            cy - y,
        ).alpha == TRANSPARENT ==> blit_cutout_spec(src, dst, x, y).pix(cx, cy) == dst.pix(cx, cy),
        in_rect(x, y, src.width as int, src.height as int, cx, cy) && src.pix(
            cx - x,
            cy - y,
        ).alpha != TRANSPARENT ==> blit_cutout_spec(src, dst, x, y).pix(cx, cy) == src.pix(
            cx - x,
            cy - y,
        ),
        !in_rect(x, y, src.width as int, src.height as int, cx, cy) ==> blit_cutout_spec(
            src,
            dst,
            x,
            y,
        ).pix(cx, cy) == dst.pix(cx, cy),
{
}

} // verus!

//! The render loop's move protocol.
//!
//! After setup, one thread owns the root bitmap, the window and the cursor,
//! and processes each coordinate received from the mailbox by unmapping in
//! reverse stacking order, moving, and remapping with the cursor on top.
//! Because a map captures its backing only when none is saved, the protocol
//! always restores the rectangle saved at the old position and captures the
//! one at the new position.

use crate::bitmap::{BitMap, BitMapView};
use crate::window::{map_alpha_spec, map_spec, unmap_spec, Window, WindowView};
use vstd::prelude::*;

verus! {

/// What one move does: unmap the cursor, then the window, set both
/// positions to `(x, y)`, remap the window, and remap the cursor with the
/// cutout blit so it stays on top.
pub open spec fn render_move_spec(
    win: WindowView,
    cur: WindowView,
    fb: BitMapView,
    x: nat,
    y: nat,
) -> (WindowView, WindowView, BitMapView) {
    let (cur1, fb1) = unmap_spec(cur, fb);
    let (win1, fb2) = unmap_spec(win, fb1);
    let win2 = WindowView {
        x: x,
        y: y,
        decorated: win1.decorated,
        bitmap: win1.bitmap,
        backing: win1.backing,
    };
    let cur2 = WindowView {
        x: x,
        y: y,
        decorated: cur1.decorated,
        bitmap: cur1.bitmap,
        backing: cur1.backing,
    };
    let (win3, fb3) = map_spec(win2, fb2);
    let (cur3, fb4) = map_alpha_spec(cur2, fb3);
    (win3, cur3, fb4)
}

/// Process one coordinate from the handoff: move the window and the cursor
/// to `(x, y)`, restoring the old footprints and drawing the new ones.
pub fn render_move(win: &mut Window, cursor: &mut Window, fb: &mut BitMap, x: u32, y: u32)
    requires
        old(win)@.wf(),
        old(cursor)@.wf(),
        old(fb)@.wf(),
        old(win)@.backing is Some ==> old(win)@.fits(old(fb)@),
        old(cursor)@.backing is Some ==> old(cursor)@.fits(old(fb)@),
        x + old(win)@.twidth() <= old(fb)@.width,
        y + old(win)@.theight() <= old(fb)@.height,
        x + old(cursor)@.twidth() <= old(fb)@.width,
        y + old(cursor)@.theight() <= old(fb)@.height,
    ensures
        ({
            let (w3, c3, f4) = render_move_spec(
                old(win)@,
                old(cursor)@,
                old(fb)@,
                x as nat,
                y as nat,
            );
            final(win)@ == w3 && final(cursor)@ == c3 && final(fb)@ == f4
        }),
        final(win)@.wf(),
        final(cursor)@.wf(),
        final(fb)@.wf(),
        final(win)@.backing is Some,
        final(cursor)@.backing is Some,
        final(win)@.fits(final(fb)@),
        final(cursor)@.fits(final(fb)@),
        final(win)@.x == x,
        final(win)@.y == y,
        final(cursor)@.x == x,
        final(cursor)@.y == y,
        final(fb)@.width == old(fb)@.width,
        final(fb)@.height == old(fb)@.height,
{
    cursor.unmap(fb);
    win.unmap(fb);
    win.x = x;
    win.y = y;
    cursor.x = x;
    cursor.y = y;
    win.map(fb);
    cursor.map_alpha(fb);
}

/// The largest x so that both outer widths still fit a surface `limit`
/// wide, or `v` itself if it already fits.
pub open spec fn clamp_coord_spec(v: int, s1: int, s2: int, limit: int) -> int {
    let s = if s1 >= s2 {
        s1
    } else {
        s2
    };
    if v > limit - s {
        limit - s
    } else {
        v as int
    }
}

/// Like `render_move`, but first clamps the target coordinate so that both
/// the window and the cursor stay fully inside the surface, whatever
/// coordinate the pointer accumulated.
pub fn render_move_clamped(win: &mut Window, cursor: &mut Window, fb: &mut BitMap, x: u32, y: u32)
    requires
        old(win)@.wf(),
        old(cursor)@.wf(),
        old(fb)@.wf(),
        old(win)@.backing is Some ==> old(win)@.fits(old(fb)@),
        old(cursor)@.backing is Some ==> old(cursor)@.fits(old(fb)@),
        old(win)@.twidth() <= old(fb)@.width,
        old(win)@.theight() <= old(fb)@.height,
        old(cursor)@.twidth() <= old(fb)@.width,
        old(cursor)@.theight() <= old(fb)@.height,
    ensures
        ({
            let cx = clamp_coord_spec(
                x as int,
                old(win)@.twidth(),
                old(cursor)@.twidth(),
                old(fb)@.width as int,
            );
            let cy = clamp_coord_spec(
                y as int,
                old(win)@.theight(),
                old(cursor)@.theight(),
                old(fb)@.height as int,
            );
            let (w3, c3, f4) = render_move_spec(
                old(win)@,
                old(cursor)@,
                old(fb)@,
                cx as nat,
                cy as nat,
            );
            final(win)@ == w3 && final(cursor)@ == c3 && final(fb)@ == f4
        }),
        final(win)@.wf(),
        final(cursor)@.wf(),
        final(fb)@.wf(),
        final(win)@.backing is Some,
        final(cursor)@.backing is Some,
        final(win)@.fits(final(fb)@),
        final(cursor)@.fits(final(fb)@),
        final(fb)@.width == old(fb)@.width,
        final(fb)@.height == old(fb)@.height,
{
    let win_tw = win.twidth();
    let win_th = win.theight();
    let cur_tw = cursor.twidth();
    let cur_th = cursor.theight();
    let sx = if win_tw >= cur_tw {
        win_tw
    } else {
        cur_tw
    };
    let sy = if win_th >= cur_th {
        win_th
    } else {
        cur_th
    };
    let cx = if x > fb.width - sx {
        fb.width - sx
    } else {
        x
    };
    let cy = if y > fb.height - sy {
        fb.height - sy
    } else {
        y
    };
    render_move(win, cursor, fb, cx, cy);
}

} // verus!

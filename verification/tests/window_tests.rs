use display::bitmap::{BitMap, Pixel, TRANSPARENT};
use display::compositor::{render_move, render_move_clamped};
use display::cursor::cursor;
use display::draw::draw_rect;
use display::fb::{configure_vinfo, var_screeninfo};
use display::window::{create_root, Window, FRAME_BORDER, FRAME_TOP};

fn px(r: u8, g: u8, b: u8) -> Pixel {
    Pixel::new(r, g, b)
}

fn white() -> Pixel {
    px(0xff, 0xff, 0xff)
}

fn black() -> Pixel {
    px(0x00, 0x00, 0x00)
}

fn red() -> Pixel {
    px(0xff, 0x00, 0x00)
}

fn white_root(width: u32, height: u32) -> BitMap {
    BitMap::new(width, height, white())
}

/// The pixel a decorated window must show at target coordinate `(x, y)`
/// when mapped with its outer corner at `(wx, wy)` and content `cw x ch`,
/// or `None` outside its footprint.
fn expected_window_pixel(wx: u32, wy: u32, cw: u32, ch: u32, x: u32, y: u32) -> Option<Pixel> {
    let tw = cw + 2 * FRAME_BORDER;
    let th = ch + FRAME_BORDER + FRAME_TOP;
    if x < wx || x >= wx + tw || y < wy || y >= wy + th {
        return None;
    }
    let inner_x = wx + FRAME_BORDER;
    let inner_y = wy + FRAME_TOP;
    if x >= inner_x && x < inner_x + cw && y >= inner_y && y < inner_y + ch {
        Some(black()) // content of a freshly created window
    } else {
        Some(red()) // decoration: border bands and title bar
    }
}

#[test]
fn window_geometry_decorated() {
    let w = Window::create(100, 50, 7, 9);
    assert!(w.decorated);
    assert_eq!(w.ix(), 7 + FRAME_BORDER);
    assert_eq!(w.iy(), 9 + FRAME_TOP);
    assert_eq!(w.twidth(), 100 + 2 * FRAME_BORDER);
    assert_eq!(w.theight(), 50 + FRAME_BORDER + FRAME_TOP);
}

#[test]
fn window_geometry_undecorated() {
    let mut w = Window::create(100, 50, 7, 9);
    w.decorated = false;
    assert_eq!(w.ix(), 7);
    assert_eq!(w.iy(), 9);
    assert_eq!(w.twidth(), 100);
    assert_eq!(w.theight(), 50);
}

#[test]
fn create_makes_black_content() {
    let w = Window::create(3, 2, 0, 0);
    assert!(w.backing.is_none());
    for y in 0..2 {
        for x in 0..3 {
            assert_eq!(w.bitmap.get_pix(x, y), black());
        }
    }
}

#[test]
fn create_root_is_undecorated_white() {
    let mut v = var_screeninfo::default();
    v.xres = 11;
    v.yres = 7;
    let root = create_root(&v);
    assert!(!root.decorated);
    assert_eq!(root.x, 0);
    assert_eq!(root.y, 0);
    assert_eq!(root.bitmap.width, 11);
    assert_eq!(root.bitmap.height, 7);
    for y in 0..7 {
        for x in 0..11 {
            assert_eq!(root.bitmap.get_pix(x, y), white());
        }
    }
}

#[test]
fn configure_vinfo_forces_the_mode() {
    let mut v = var_screeninfo::default();
    v.xres = 640;
    v.yres = 480;
    v.xoffset = 5;
    v.yoffset = 6;
    configure_vinfo(&mut v);
    assert_eq!(v.bits_per_pixel, 32);
    assert_eq!(v.xres_virtual, 640);
    assert_eq!(v.yres_virtual, 480);
    assert_eq!(v.xoffset, 0);
    assert_eq!(v.yoffset, 0);
    assert_eq!(v.xres, 640);
    assert_eq!(v.yres, 480);
}

#[test]
fn map_draws_content_and_decoration() {
    let mut fb = white_root(20, 25);
    let mut w = Window::create(4, 3, 5, 6);
    w.map(&mut fb);
    for y in 0..25 {
        for x in 0..20 {
            match expected_window_pixel(5, 6, 4, 3, x, y) {
                Some(p) => assert_eq!(fb.get_pix(x, y), p),
                None => assert_eq!(fb.get_pix(x, y), white()),
            }
        }
    }
}

#[test]
fn map_then_unmap_restores_the_target() {
    let mut fb = white_root(20, 25);
    let mut w = Window::create(4, 3, 5, 6);
    w.map(&mut fb);
    assert!(w.backing.is_some());
    w.unmap(&mut fb);
    assert!(w.backing.is_none());
    for y in 0..25 {
        for x in 0..20 {
            assert_eq!(fb.get_pix(x, y), white());
        }
    }
}

#[test]
fn unmap_without_backing_is_a_no_op() {
    let mut fb = white_root(10, 10);
    let mut w = Window::create(2, 2, 1, 1);
    w.unmap(&mut fb);
    assert!(w.backing.is_none());
    for y in 0..10 {
        for x in 0..10 {
            assert_eq!(fb.get_pix(x, y), white());
        }
    }
}

#[test]
fn second_map_captures_backing_only_once() {
    let mut fb = white_root(20, 25);
    let mut w = Window::create(4, 3, 5, 6);
    w.map(&mut fb);
    // corrupt the whole footprint (and more) between the two maps
    draw_rect(&mut fb, 0, 0, 20, 25, px(1, 2, 3));
    w.map(&mut fb);
    w.unmap(&mut fb);
    // the footprint shows what was captured before the *first* map,
    // not the corrupted intermediate state
    for y in 6..(6 + 3 + FRAME_BORDER + FRAME_TOP) {
        for x in 5..(5 + 4 + 2 * FRAME_BORDER) {
            assert_eq!(fb.get_pix(x, y), white());
        }
    }
    // outside the footprint the corruption stays, as only unmap's
    // rectangle is restored
    assert_eq!(fb.get_pix(0, 0), px(1, 2, 3));
}

#[test]
fn map_alpha_lets_marked_pixels_show_through() {
    let mut fb = white_root(10, 10);
    draw_rect(&mut fb, 0, 0, 10, 10, px(5, 5, 5));
    let mut img = BitMap::new(2, 2, black());
    img.set_pix(1, 0, Pixel { blue: 0xff, green: 0xff, red: 0xff, alpha: TRANSPARENT });
    let mut cur = cursor(img);
    cur.x = 3;
    cur.y = 4;
    cur.map_alpha(&mut fb);
    assert_eq!(fb.get_pix(3, 4), black());
    assert_eq!(fb.get_pix(4, 4), px(5, 5, 5)); // transparent pixel: background shows
    assert_eq!(fb.get_pix(3, 5), black());
    assert_eq!(fb.get_pix(4, 5), black());
    cur.unmap(&mut fb);
    for y in 0..10 {
        for x in 0..10 {
            assert_eq!(fb.get_pix(x, y), px(5, 5, 5));
        }
    }
}

#[test]
fn cursor_is_undecorated_at_origin() {
    let img = BitMap::new(2, 2, black());
    let c = cursor(img);
    assert!(!c.decorated);
    assert_eq!(c.x, 0);
    assert_eq!(c.y, 0);
    assert!(c.backing.is_none());
}

/// A cursor whose every pixel carries the transparency marker, so it draws
/// nothing.
fn invisible_cursor() -> Window {
    let img = BitMap::new(1, 1, black());
    let mut img = img;
    img.set_pix(0, 0, Pixel { blue: 0xff, green: 0xff, red: 0xff, alpha: TRANSPARENT });
    cursor(img)
}

#[test]
fn end_to_end_move_restores_vacated_footprint() {
    // a 100x100 decorated window on a 300x300 all-white root
    let mut fb = white_root(300, 300);
    let mut w = Window::create(100, 100, 100, 100);
    let mut cur = invisible_cursor();
    w.map(&mut fb);
    cur.map_alpha(&mut fb);
    // everything outside the footprint is white after the first map
    for y in (0..300).step_by(7) {
        for x in (0..300).step_by(7) {
            if expected_window_pixel(100, 100, 100, 100, x, y).is_none() {
                assert_eq!(fb.get_pix(x, y), white());
            }
        }
    }
    // the move protocol relocates window and cursor to (150, 120)
    render_move(&mut w, &mut cur, &mut fb, 150, 120);
    assert_eq!(w.x, 150);
    assert_eq!(w.y, 120);
    for y in 0..300 {
        for x in 0..300 {
            match expected_window_pixel(150, 120, 100, 100, x, y) {
                // the new footprint shows content and decoration
                Some(p) => assert_eq!(fb.get_pix(x, y), p),
                // the vacated footprint and everything else is white again
                None => assert_eq!(fb.get_pix(x, y), white()),
            }
        }
    }
}

#[test]
fn render_move_clamps_nothing_when_in_bounds() {
    let mut fb = white_root(50, 50);
    let mut w = Window::create(4, 4, 0, 0);
    let mut cur = invisible_cursor();
    w.map(&mut fb);
    cur.map_alpha(&mut fb);
    render_move_clamped(&mut w, &mut cur, &mut fb, 10, 12);
    assert_eq!(w.x, 10);
    assert_eq!(w.y, 12);
}

#[test]
fn render_move_clamped_keeps_the_window_inside() {
    let mut fb = white_root(50, 50);
    let mut w = Window::create(4, 4, 0, 0);
    let mut cur = invisible_cursor();
    w.map(&mut fb);
    cur.map_alpha(&mut fb);
    render_move_clamped(&mut w, &mut cur, &mut fb, 1000, 1000);
    // clamped so the larger of the two outer sizes still fits
    assert_eq!(w.x, 50 - (4 + 2 * FRAME_BORDER));
    assert_eq!(w.y, 50 - (4 + FRAME_BORDER + FRAME_TOP));
    // and the surface is consistent: unmapping both restores all white
    cur.unmap(&mut fb);
    w.unmap(&mut fb);
    for y in 0..50 {
        for x in 0..50 {
            assert_eq!(fb.get_pix(x, y), white());
        }
    }
}

use display::bitmap::{BitMap, Pixel, TRANSPARENT};
use display::draw::{blit, blit_cutout, draw_rect, draw_rect_border, draw_rect_stroke, extract, fill};

fn px(r: u8, g: u8, b: u8) -> Pixel {
    Pixel::new(r, g, b)
}

/// A deterministic test pattern so every pixel is distinguishable.
fn patterned(width: u32, height: u32) -> BitMap {
    let mut bm = BitMap::new(width, height, px(0, 0, 0));
    for y in 0..height {
        for x in 0..width {
            bm.set_pix(x, y, px((x * 31 + y * 7) as u8, (x * 3) as u8, (y * 5) as u8));
        }
    }
    bm
}

#[test]
fn pixel_new_is_opaque() {
    let p = px(1, 2, 3);
    assert_eq!(p.red, 1);
    assert_eq!(p.green, 2);
    assert_eq!(p.blue, 3);
    assert_eq!(p.alpha, 0x00);
}

#[test]
fn pixel_blend_is_hard_cutout() {
    let under = px(10, 20, 30);
    let opaque = px(40, 50, 60);
    let transparent = Pixel { blue: 1, green: 2, red: 3, alpha: TRANSPARENT };
    assert_eq!(under.blend(opaque), opaque);
    assert_eq!(under.blend(transparent), under);
    // any non-marker transparency byte is fully opaque
    let odd_alpha = Pixel { blue: 4, green: 5, red: 6, alpha: 0x80 };
    assert_eq!(under.blend(odd_alpha), odd_alpha);
}

#[test]
fn bitmap_new_has_dimensions_and_fill() {
    let bm = BitMap::new(4, 3, px(9, 9, 9));
    assert_eq!(bm.width, 4);
    assert_eq!(bm.height, 3);
    assert_eq!(bm.pxs.len(), 12);
    for y in 0..3 {
        for x in 0..4 {
            assert_eq!(bm.get_pix(x, y), px(9, 9, 9));
        }
    }
}

#[test]
fn set_pix_changes_only_one_pixel() {
    let mut bm = BitMap::new(3, 3, px(0, 0, 0));
    bm.set_pix(1, 2, px(7, 7, 7));
    for y in 0..3 {
        for x in 0..3 {
            if x == 1 && y == 2 {
                assert_eq!(bm.get_pix(x, y), px(7, 7, 7));
            } else {
                assert_eq!(bm.get_pix(x, y), px(0, 0, 0));
            }
        }
    }
}

#[test]
fn extract_copies_the_rectangle() {
    let bm = patterned(8, 6);
    let sub = extract(&bm, 2, 1, 3, 2);
    assert_eq!(sub.width, 3);
    assert_eq!(sub.height, 2);
    for y in 0..2 {
        for x in 0..3 {
            assert_eq!(sub.get_pix(x, y), bm.get_pix(2 + x, 1 + y));
        }
    }
}

#[test]
fn extract_blit_round_trip_is_identity() {
    let original = patterned(8, 6);
    let mut bm = patterned(8, 6);
    let sub = extract(&bm, 2, 1, 3, 2);
    blit(&sub, &mut bm, 2, 1);
    for y in 0..6 {
        for x in 0..8 {
            assert_eq!(bm.get_pix(x, y), original.get_pix(x, y));
        }
    }
}

#[test]
fn blit_overwrites_inside_and_preserves_outside() {
    let mut dst = BitMap::new(5, 5, px(1, 1, 1));
    let src = BitMap::new(2, 3, px(8, 8, 8));
    blit(&src, &mut dst, 2, 1);
    for y in 0..5 {
        for x in 0..5 {
            if (2..4).contains(&x) && (1..4).contains(&y) {
                assert_eq!(dst.get_pix(x, y), px(8, 8, 8));
            } else {
                assert_eq!(dst.get_pix(x, y), px(1, 1, 1));
            }
        }
    }
}

#[test]
fn blit_cutout_skips_marked_pixels_and_copies_the_rest() {
    let mut dst = patterned(4, 4);
    let before = patterned(4, 4);
    let mut src = BitMap::new(2, 2, px(200, 0, 0));
    src.set_pix(0, 0, Pixel { blue: 9, green: 9, red: 9, alpha: TRANSPARENT });
    src.set_pix(1, 1, Pixel { blue: 5, green: 6, red: 7, alpha: TRANSPARENT });
    blit_cutout(&src, &mut dst, 1, 1);
    // marked source pixels leave the destination untouched
    assert_eq!(dst.get_pix(1, 1), before.get_pix(1, 1));
    assert_eq!(dst.get_pix(2, 2), before.get_pix(2, 2));
    // unmarked source pixels always overwrite
    assert_eq!(dst.get_pix(2, 1), px(200, 0, 0));
    assert_eq!(dst.get_pix(1, 2), px(200, 0, 0));
    // pixels outside the source rectangle are untouched
    for y in 0..4 {
        for x in 0..4 {
            if !((1..3).contains(&x) && (1..3).contains(&y)) {
                assert_eq!(dst.get_pix(x, y), before.get_pix(x, y));
            }
        }
    }
}

#[test]
fn blit_cutout_with_opaque_zero_alpha_overwrites() {
    let mut dst = BitMap::new(2, 1, px(1, 1, 1));
    let src = BitMap::new(2, 1, px(3, 3, 3));
    // alpha 0x00 is opaque, not "fully transparent"
    blit_cutout(&src, &mut dst, 0, 0);
    assert_eq!(dst.get_pix(0, 0), px(3, 3, 3));
    assert_eq!(dst.get_pix(1, 0), px(3, 3, 3));
}

#[test]
fn fill_overwrites_every_pixel() {
    let mut bm = patterned(5, 4);
    fill(&mut bm, px(2, 4, 6));
    for y in 0..4 {
        for x in 0..5 {
            assert_eq!(bm.get_pix(x, y), px(2, 4, 6));
        }
    }
}

#[test]
fn draw_rect_paints_exactly_the_rectangle() {
    let mut bm = BitMap::new(5, 5, px(0, 0, 0));
    draw_rect(&mut bm, 1, 1, 2, 2, px(255, 0, 0));
    for y in 0..5 {
        for x in 0..5 {
            if (1..3).contains(&x) && (1..3).contains(&y) {
                assert_eq!(bm.get_pix(x, y), px(255, 0, 0));
            } else {
                assert_eq!(bm.get_pix(x, y), px(0, 0, 0));
            }
        }
    }
}

#[test]
fn draw_rect_stroke_paints_the_ring_only() {
    let mut bm = BitMap::new(6, 6, px(0, 0, 0));
    draw_rect_stroke(&mut bm, 0, 0, 6, 6, px(9, 9, 9), 1);
    for y in 0..6 {
        for x in 0..6 {
            let on_ring = x == 0 || x == 5 || y == 0 || y == 5;
            if on_ring {
                assert_eq!(bm.get_pix(x, y), px(9, 9, 9));
            } else {
                assert_eq!(bm.get_pix(x, y), px(0, 0, 0));
            }
        }
    }
}

#[test]
fn draw_rect_border_draws_outward() {
    let mut with_border = BitMap::new(6, 6, px(0, 0, 0));
    draw_rect_border(&mut with_border, 2, 2, 2, 2, px(9, 9, 9), 1);
    let mut with_stroke = BitMap::new(6, 6, px(0, 0, 0));
    draw_rect_stroke(&mut with_stroke, 1, 1, 4, 4, px(9, 9, 9), 1);
    for y in 0..6 {
        for x in 0..6 {
            assert_eq!(with_border.get_pix(x, y), with_stroke.get_pix(x, y));
        }
    }
}

#[test]
fn leak_consumes_the_bitmap() {
    let bm = BitMap::new(2, 2, px(0, 0, 0));
    bm.leak();
}

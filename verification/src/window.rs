//! Window lifecycle: map, unmap and the restorable backing store.
//!
//! A window owns its content bitmap and an optional saved copy of the
//! target pixels it covers.  `map` captures that backing exactly once and
//! draws the window; `unmap` blits the backing back and clears it.  The
//! transformer spec functions `map_spec`, `map_alpha_spec` and `unmap_spec`
//! say precisely what each operation does to the window and the target, and
//! the lemmas at the end prove the restore guarantees of the protocol.

use crate::bitmap::{lemma_bitmap_eq, lemma_mk_bitmap_pix, BitMap, BitMapView, Pixel};
use crate::draw::{
    blit, blit_cutout, blit_cutout_spec, blit_spec, draw_rect, draw_rect_spec, draw_rect_stroke,
    draw_rect_stroke_spec, extract, extract_spec, in_rect, lemma_stroke_outside,
};
use crate::fb::var_screeninfo;
use vstd::prelude::*;

verus! {

broadcast use lemma_mk_bitmap_pix;

/// Thickness of the decoration border, in pixels.
pub const FRAME_BORDER: u32 = 2;

/// Height of the decoration title bar, in pixels.
pub const FRAME_TOP: u32 = 8;

/// Colour of the decoration (border and title bar).
pub open spec fn frame_pixel() -> Pixel {
    Pixel { blue: 0x00, green: 0x00, red: 0xff, alpha: 0x00 }
}

/// A rectangular surface with a position, optional decoration, a content
/// bitmap, and the saved backing captured while mapped.
pub struct Window {
    /// Absolute x coordinate of the outer (decoration-inclusive) corner.
    pub x: u32,
    /// Absolute y coordinate of the outer (decoration-inclusive) corner.
    pub y: u32,
    pub decorated: bool,
    /// The content bitmap of the window.
    pub bitmap: BitMap,
    /// The target pixels behind the window, saved between map and unmap.
    pub backing: Option<BitMap>,
}

/// Mathematical view of a window.
#[verifier::ext_equal]
pub ghost struct WindowView {
    pub x: nat,
    pub y: nat,
    pub decorated: bool,
    pub bitmap: BitMapView,
    pub backing: Option<BitMapView>,
}

impl View for Window {
    type V = WindowView;

    open spec fn view(&self) -> WindowView {
        WindowView {
            x: self.x as nat,
            y: self.y as nat,
            decorated: self.decorated,
            bitmap: self.bitmap@,
            backing: match self.backing {
                Option::Some(b) => Option::Some(b@),
                Option::None => Option::None,
            },
        }
    }
}

impl WindowView {
    /// x coordinate of the content bitmap, past any decoration.
    pub open spec fn ix(self) -> int {
        if self.decorated {
            self.x + FRAME_BORDER
        } else {
            self.x as int
        }
    }

    /// y coordinate of the content bitmap, past any decoration.
    pub open spec fn iy(self) -> int {
        if self.decorated {
            self.y + FRAME_TOP
        } else {
            self.y as int
        }
    }

    /// Total width, decoration included.
    pub open spec fn twidth(self) -> int {
        if self.decorated {
            self.bitmap.width + FRAME_BORDER * 2
        } else {
            self.bitmap.width as int
        }
    }

    /// Total height, decoration included.
    pub open spec fn theight(self) -> int {
        if self.decorated {
            self.bitmap.height + FRAME_BORDER + FRAME_TOP
        } else {
            self.bitmap.height as int
        }
    }

    /// The content bitmap is well formed, the outer size fits the machine
    /// word, and a saved backing has exactly the outer dimensions.
    pub open spec fn wf(self) -> bool {
        &&& self.bitmap.wf()
        &&& self.twidth() <= u32::MAX
        &&& self.theight() <= u32::MAX
        &&& match self.backing {
            Option::Some(b) => b.wf() && b.width == self.twidth() && b.height == self.theight(),
            Option::None => true,
        }
    }

    /// The window's outer rectangle lies fully inside `fb`.
    pub open spec fn fits(self, fb: BitMapView) -> bool {
        self.x + self.twidth() <= fb.width && self.y + self.theight() <= fb.height
    }

    /// `(cx, cy)` lies in the window's outer rectangle.
    pub open spec fn covers(self, cx: int, cy: int) -> bool {
        in_rect(self.x as int, self.y as int, self.twidth(), self.theight(), cx, cy)
    }
}

/// The decoration drawn onto `fb` around window `w`: the border stroke,
/// then the title bar across the top of the outer rectangle.
pub open spec fn decorate_spec(w: WindowView, fb: BitMapView) -> BitMapView {
    let stroked = draw_rect_stroke_spec(
        fb,
        w.x as int,
        w.y as int,
        w.twidth(),
        w.theight(),
        frame_pixel(),
        FRAME_BORDER as int,
    );
    draw_rect_spec(stroked, w.x as int, w.y as int, w.twidth(), FRAME_TOP as int, frame_pixel())
}

/// What mapping does: capture the backing if none is saved, draw the
/// content (with or without the transparency cutout), then the decoration.
pub open spec fn map_core_spec(w: WindowView, fb: BitMapView, cutout: bool) -> (WindowView,
    BitMapView) {
    let backing = if w.backing is None {
        Option::Some(
            extract_spec(fb, w.x as int, w.y as int, w.twidth() as nat, w.theight() as nat),
        )
    } else {
        w.backing
    };
    let drawn = if cutout {
        blit_cutout_spec(w.bitmap, fb, w.ix(), w.iy())
    } else {
        blit_spec(w.bitmap, fb, w.ix(), w.iy())
    };
    let composed = if w.decorated {
        decorate_spec(w, drawn)
    } else {
        drawn
    };
    (
        WindowView {
            x: w.x,
            y: w.y,
            decorated: w.decorated,
            bitmap: w.bitmap,
            backing: backing,
        },
        composed,
    )
}

/// Mapping with the opaque blit.
pub open spec fn map_spec(w: WindowView, fb: BitMapView) -> (WindowView, BitMapView) {
    map_core_spec(w, fb, false)
}

/// Mapping with the transparency-aware blit.
pub open spec fn map_alpha_spec(w: WindowView, fb: BitMapView) -> (WindowView, BitMapView) {
    map_core_spec(w, fb, true)
}

/// What unmapping does: blit the saved backing to the current position and
/// clear it; without a backing, nothing.
pub open spec fn unmap_spec(w: WindowView, fb: BitMapView) -> (WindowView, BitMapView) {
    match w.backing {
        Option::Some(b) => (
            WindowView {
                x: w.x,
                y: w.y,
                decorated: w.decorated,
                bitmap: w.bitmap,
                backing: Option::None,
            },
            blit_spec(b, fb, w.x as int, w.y as int),
        ),
        Option::None => (w, fb),
    }
}

impl Window {
    /// A decorated window with all-black content of the given size.
    pub fn create(width: u32, height: u32, x: u32, y: u32) -> (w: Window)
        requires
            width * height <= usize::MAX,
            width + FRAME_BORDER * 2 <= u32::MAX,
            height + FRAME_BORDER + FRAME_TOP <= u32::MAX,
        ensures
            w@.wf(),
            w@.x == x,
            w@.y == y,
            w@.decorated == true,
            w@.backing is None,
            w@.bitmap.width == width,
            w@.bitmap.height == height,
            forall|cx: int, cy: int|
                w@.bitmap.in_bounds(cx, cy) ==> w@.bitmap.pix(cx, cy) == (Pixel {
                    blue: 0x00u8,
                    green: 0x00u8,
                    red: 0x00u8,
                    alpha: 0x00u8,
                }),
    {
        Window {
            x,
            y,
            decorated: true,
            bitmap: BitMap::new(width, height, Pixel::new(0x00, 0x00, 0x00)),
            backing: None,
        }
    }

    /// x coordinate of the content bitmap (thus excluding the decoration).
    pub fn ix(&self) -> (r: u32)
        requires
            self.decorated ==> self.x + FRAME_BORDER <= u32::MAX,
        ensures
            r == self@.ix(),
    {
        if self.decorated {
            self.x + FRAME_BORDER
        } else {
            self.x
        }
    }

    /// y coordinate of the content bitmap (thus excluding the decoration).
    pub fn iy(&self) -> (r: u32)
        requires
            self.decorated ==> self.y + FRAME_TOP <= u32::MAX,
        ensures
            r == self@.iy(),
    {
        if self.decorated {
            self.y + FRAME_TOP
        } else {
            self.y
        }
    }

    /// Total width, including decorations.
    pub fn twidth(&self) -> (r: u32)
        requires
            self@.twidth() <= u32::MAX,
        ensures
            r == self@.twidth(),
    {
        if self.decorated {
            self.bitmap.width + FRAME_BORDER * 2
        } else {
            self.bitmap.width
        }
    }

    /// Total height, including decorations.
    pub fn theight(&self) -> (r: u32)
        requires
            self@.theight() <= u32::MAX,
        ensures
            r == self@.theight(),
    {
        if self.decorated {
            self.bitmap.height + FRAME_BORDER + FRAME_TOP
        } else {
            self.bitmap.height
        }
    }

    /// Map this window onto the target bitmap with the opaque blit.
    pub fn map(&mut self, fb: &mut BitMap)
        requires
            old(self)@.wf(),
            old(fb)@.wf(),
            old(self)@.fits(old(fb)@),
        ensures
            ({
                let (w2, f2) = map_spec(old(self)@, old(fb)@);
                final(self)@ == w2 && final(fb)@ == f2
            }),
            final(self)@.wf(),
            final(self)@.backing is Some,
            final(self)@.fits(final(fb)@),
            final(self)@.x == old(self)@.x,
            final(self)@.y == old(self)@.y,
            final(self)@.decorated == old(self)@.decorated,
            final(self)@.bitmap == old(self)@.bitmap,
            final(fb)@.wf(),
            final(fb)@.width == old(fb)@.width,
            final(fb)@.height == old(fb)@.height,
    {
        if self.backing.is_none() {
            let tw = self.twidth();
            let th = self.theight();
            let b = extract(fb, self.x, self.y, tw, th);
            self.backing = Some(b);
        }
        let cx = self.ix();
        let cy = self.iy();
        blit(&self.bitmap, fb, cx, cy);
        if self.decorated {
            self.decorate(fb);
        }
    }

    /// Map this window onto the target bitmap with the cutout blit, so that
    /// marker-transparent content pixels leave the target untouched.
    pub fn map_alpha(&mut self, fb: &mut BitMap)
        requires
            old(self)@.wf(),
            old(fb)@.wf(),
            old(self)@.fits(old(fb)@),
        ensures
            ({
                let (w2, f2) = map_alpha_spec(old(self)@, old(fb)@);
                final(self)@ == w2 && final(fb)@ == f2
            }),
            final(self)@.wf(),
            final(self)@.backing is Some,
            final(self)@.fits(final(fb)@),
            final(self)@.x == old(self)@.x,
            final(self)@.y == old(self)@.y,
            final(self)@.decorated == old(self)@.decorated,
            final(self)@.bitmap == old(self)@.bitmap,
            final(fb)@.wf(),
            final(fb)@.width == old(fb)@.width,
            final(fb)@.height == old(fb)@.height,
    {
        if self.backing.is_none() {
            let tw = self.twidth();
            let th = self.theight();
            let b = extract(fb, self.x, self.y, tw, th);
            self.backing = Some(b);
        }
        let cx = self.ix();
        let cy = self.iy();
        blit_cutout(&self.bitmap, fb, cx, cy);
        if self.decorated {
            self.decorate(fb);
        }
    }

    /// Restore the saved backing at the current position and clear it; a
    /// no-op when no backing is saved.
    pub fn unmap(&mut self, fb: &mut BitMap)
        requires
            old(self)@.wf(),
            old(fb)@.wf(),
            old(self)@.backing is Some ==> old(self)@.fits(old(fb)@),
        ensures
            ({
                let (w2, f2) = unmap_spec(old(self)@, old(fb)@);
                final(self)@ == w2 && final(fb)@ == f2
            }),
            final(self)@.wf(),
            final(self)@.backing is None,
            final(self)@.x == old(self)@.x,
            final(self)@.y == old(self)@.y,
            final(self)@.decorated == old(self)@.decorated,
            final(self)@.bitmap == old(self)@.bitmap,
            final(fb)@.wf(),
            final(fb)@.width == old(fb)@.width,
            final(fb)@.height == old(fb)@.height,
    {
        let backing = self.backing.take();
        match backing {
            Some(b) => {
                blit(&b, fb, self.x, self.y);
            },
            None => {},
        }
    }

    /// Draw the decoration: the border stroke around the outer rectangle,
    /// then the title bar across its top.
    pub fn decorate(&self, fb: &mut BitMap)
        requires
            old(fb)@.wf(),
            self@.decorated,
            self@.twidth() <= u32::MAX,
            self@.theight() <= u32::MAX,
            self@.fits(old(fb)@),
        ensures
            final(fb)@ == decorate_spec(self@, old(fb)@),
            final(fb)@.wf(),
            final(fb)@.width == old(fb)@.width,
            final(fb)@.height == old(fb)@.height,
    {
        let tw = self.twidth();
        let th = self.theight();
        let px = Pixel::new(0xff, 0x00, 0x00);
        draw_rect_stroke(fb, self.x, self.y, tw, th, px, FRAME_BORDER);
        draw_rect(fb, self.x, self.y, tw, FRAME_TOP, px);
    }
}

/// The root surface: an undecorated, all-white window covering the whole
/// visible resolution, positioned at the origin.
pub fn create_root(v_info: &var_screeninfo) -> (w: Window)
    requires
        v_info.xres * v_info.yres <= usize::MAX,
    ensures
        w@.wf(),
        w@.x == 0,
        w@.y == 0,
        w@.decorated == false,
        w@.backing is None,
        w@.bitmap.width == v_info.xres,
        w@.bitmap.height == v_info.yres,
        forall|cx: int, cy: int|
            w@.bitmap.in_bounds(cx, cy) ==> w@.bitmap.pix(cx, cy) == (Pixel {
                blue: 0xffu8,
                green: 0xffu8,
                red: 0xffu8,
                alpha: 0x00u8,
            }),
{
    Window {
        x: 0,
        y: 0,
        decorated: false,
        bitmap: BitMap::new(v_info.xres, v_info.yres, Pixel::new(0xff, 0xff, 0xff)),
        backing: None,
    }
}

/// Mapping a window (with either blit) changes no target pixel outside the
/// window's outer rectangle.
pub proof fn lemma_map_outside(w: WindowView, fb: BitMapView, cutout: bool, cx: int, cy: int)
    requires
        w.wf(),
        fb.wf(),
        w.fits(fb),
        fb.in_bounds(cx, cy),
        !w.covers(cx, cy),
    ensures
        map_core_spec(w, fb, cutout).1.pix(cx, cy) == fb.pix(cx, cy),
{
    let drawn = if cutout {
        blit_cutout_spec(w.bitmap, fb, w.ix(), w.iy())
    } else {
        blit_spec(w.bitmap, fb, w.ix(), w.iy())
    };
    assert(drawn.pix(cx, cy) == fb.pix(cx, cy));
    if w.decorated {
        let stroked = draw_rect_stroke_spec(
            drawn,
            w.x as int,
            w.y as int,
            w.twidth(),
            w.theight(),
            frame_pixel(),
            FRAME_BORDER as int,
        );
        lemma_stroke_outside(
            drawn,
            w.x as int,
            w.y as int,
            w.twidth(),
            w.theight(),
            frame_pixel(),
            FRAME_BORDER as int,
            cx,
            cy,
        );
        assert(decorate_spec(w, drawn).pix(cx, cy) == stroked.pix(cx, cy));
    }
}

/// Mapping a window and then unmapping it restores the target bitmap to its
/// exact pre-map pixel content, and leaves the window without a backing.
pub proof fn lemma_map_unmap_restores(w: WindowView, fb: BitMapView, cutout: bool)
    requires
        w.wf(),
        fb.wf(),
        w.backing is None,
        w.fits(fb),
    ensures
        ({
            let (w1, fb1) = map_core_spec(w, fb, cutout);
            let (w2, fb2) = unmap_spec(w1, fb1);
            fb2 == fb && w2.backing is None
        }),
{
    let (w1, fb1) = map_core_spec(w, fb, cutout);
    let (w2, fb2) = unmap_spec(w1, fb1);
    let e = extract_spec(fb, w.x as int, w.y as int, w.twidth() as nat, w.theight() as nat);
    assert(w1.backing == Option::Some(e));
    assert(fb2 == blit_spec(e, fb1, w.x as int, w.y as int));
    assert forall|cx: int, cy: int| fb.in_bounds(cx, cy) implies fb2.pix(cx, cy) == fb.pix(
        cx,
        cy,
    ) by {
        if w.covers(cx, cy) {
            assert(e.pix(cx - w.x, cy - w.y) == fb.pix(
                w.x + (cx - w.x),
                w.y + (cy - w.y),
            ));
        } else {
            lemma_map_outside(w, fb, cutout, cx, cy);
        }
    }
    lemma_bitmap_eq(fb2, fb);
}

/// Mapping twice without an intervening unmap captures the backing exactly
/// once: however the target's pixels are corrupted between the two maps,
/// unmapping restores, over the window's whole outer rectangle, the pixels
/// captured before the first map.
pub proof fn lemma_second_map_keeps_backing(
    w: WindowView,
    fb: BitMapView,
    corrupt: BitMapView,
    cutout: bool,
)
    requires
        w.wf(),
        fb.wf(),
        corrupt.wf(),
        corrupt.width == fb.width,
        corrupt.height == fb.height,
        w.backing is None,
        w.fits(fb),
    ensures
        ({
            let (w1, fb1) = map_core_spec(w, fb, cutout);
            let (w2, fb2) = map_core_spec(w1, corrupt, cutout);
            let (w3, fb3) = unmap_spec(w2, fb2);
            &&& w2.backing == w1.backing
            &&& w3.backing is None
            &&& forall|cx: int, cy: int|
                fb.in_bounds(cx, cy) && w.covers(cx, cy) ==> #[trigger] fb3.pix(cx, cy) == fb.pix(
                    cx,
                    cy,
                )
        }),
{
    let (w1, fb1) = map_core_spec(w, fb, cutout);
    let (w2, fb2) = map_core_spec(w1, corrupt, cutout);
    let (w3, fb3) = unmap_spec(w2, fb2);
    let e = extract_spec(fb, w.x as int, w.y as int, w.twidth() as nat, w.theight() as nat);
    assert(w1.backing == Option::Some(e));
    assert(w2.backing == Option::Some(e));
    assert(fb3 == blit_spec(e, fb2, w.x as int, w.y as int));
    assert forall|cx: int, cy: int| fb.in_bounds(cx, cy) && w.covers(cx, cy) implies #[trigger] fb3
        .pix(cx, cy) == fb.pix(cx, cy) by {
        assert(e.pix(cx - w.x, cy - w.y) == fb.pix(w.x + (cx - w.x), w.y + (cy - w.y)));
    }
}

} // verus!

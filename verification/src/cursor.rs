//! The hardware pointer cursor: an undecorated window whose content is
//! always composited with the cutout blit, so marker-transparent pixels of
//! the asset let the background show through.

use crate::bitmap::BitMap;
use crate::window::Window;
use vstd::prelude::*;

verus! {

/// Build the cursor from its loaded content bitmap: undecorated, at the
/// origin, with no backing saved.
pub fn cursor(img: BitMap) -> (w: Window)
    requires
        img@.wf(),
    ensures
        w@.wf(),
        w@.x == 0,
        w@.y == 0,
        w@.decorated == false,
        w@.backing is None,
        w@.bitmap == img@,
{
    Window { x: 0, y: 0, decorated: false, bitmap: img, backing: None }
}

} // verus!

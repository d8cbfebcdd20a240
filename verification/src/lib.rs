//! Compositing core for a small display server.
//!
//! The library owns the pixel data model (`Pixel`, `BitMap`), the drawing
//! primitives (extract, blit, cutout blit, fills and rectangles), the window
//! lifecycle with its restorable backing store, the cursor, the render-loop
//! move protocol, the single-slot coordinate mailbox, and the interpretation
//! of decoded pointer events.  Everything here is specified against a
//! mathematical view of the pixel buffers and verified; the process wiring
//! (framebuffer mapping, device files, threads) lives outside the library.

pub mod bitmap;
pub mod compositor;
pub mod cursor;
pub mod draw;
pub mod fb;
pub mod input;
pub mod mailbox;
pub mod ppf;
pub mod window;

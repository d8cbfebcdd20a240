//! Framebuffer mode description.
//!
//! Mirrors the kernel's variable-screen-information layout so the process
//! wiring can fill it straight from the device; the library itself reads
//! only the visible resolution.

use vstd::prelude::*;

verus! {

pub const IOGET_VSCREENINFO: i32 = 0x4600;

pub const IOPUT_VSCREENINFO: i32 = 0x4601;

/// One colour channel's position inside a pixel.
#[allow(non_camel_case_types)]
#[derive(Clone, Copy, Debug)]
pub struct bitfield {
    /// Bit offset.
    pub offset: u32,
    /// Bit length.
    pub length: u32,
    /// Most significant bit on the right side.
    pub msb_right: u32,
}

impl Default for bitfield {
    fn default() -> (r: bitfield)
        ensures
            r == (bitfield { offset: 0u32, length: 0u32, msb_right: 0u32 }),
    {
        bitfield { offset: 0, length: 0, msb_right: 0 }
    }
}

/// Variable screen information of a framebuffer device.
#[allow(non_camel_case_types)]
#[derive(Clone, Copy, Debug)]
pub struct var_screeninfo {
    /// Visible resolution in the x-axis.
    pub xres: u32,
    /// Visible resolution in the y-axis.
    pub yres: u32,
    /// Virtual resolution in the x-axis.
    pub xres_virtual: u32,
    /// Virtual resolution in the y-axis.
    pub yres_virtual: u32,
    /// Offset from virtual to visible in the x-axis.
    pub xoffset: u32,
    /// Offset from virtual to visible in the y-axis.
    pub yoffset: u32,
    /// Bits per pixel.
    pub bits_per_pixel: u32,
    /// Grayscale information.
    pub grayscale: u32,
    /// Bitfield for the red channel.
    pub red: bitfield,
    /// Bitfield for the green channel.
    pub green: bitfield,
    /// Bitfield for the blue channel.
    pub blue: bitfield,
    /// Bitfield for transparency.
    pub transp: bitfield,
    /// Non-standard pixel format indicator.
    pub nonstd: u32,
    /// Activation information.
    pub activate: u32,
    /// Height of the picture in mm.
    pub height: u32,
    /// Width of the picture in mm.
    pub width: u32,
    /// Acceleration flags.
    pub accel_flags: u32,
    /// Pixel clock in picoseconds.
    pub pixclock: u32,
    /// Time from sync to picture on the left side.
    pub left_margin: u32,
    /// Time from picture to sync on the right side.
    pub right_margin: u32,
    /// Time from sync to picture on the top side.
    pub upper_margin: u32,
    /// Time from sync to picture on the bottom side.
    pub lower_margin: u32,
    /// Length of horizontal sync.
    pub hsync_len: u32,
    /// Length of vertical sync.
    pub vsync_len: u32,
    /// Synchronization information.
    pub sync: u32,
    /// Video mode information.
    pub vmode: u32,
    /// Angle of rotation counter clockwise.
    pub rotate: u32,
    /// Colorspace information.
    pub colorspace: u32,
    /// Reserved for future compatibility.
    pub reserved: [u32; 4],
}

impl Default for var_screeninfo {
    fn default() -> (r: var_screeninfo)
        ensures
            r.xres == 0,
            r.yres == 0,
            r.bits_per_pixel == 0,
    {
        var_screeninfo {
            xres: 0,
            yres: 0,
            xres_virtual: 0,
            yres_virtual: 0,
            xoffset: 0,
            yoffset: 0,
            bits_per_pixel: 0,
            grayscale: 0,
            red: bitfield { offset: 0, length: 0, msb_right: 0 },
            green: bitfield { offset: 0, length: 0, msb_right: 0 },
            blue: bitfield { offset: 0, length: 0, msb_right: 0 },
            transp: bitfield { offset: 0, length: 0, msb_right: 0 },
            nonstd: 0,
            activate: 0,
            height: 0,
            width: 0,
            accel_flags: 0,
            pixclock: 0,
            left_margin: 0,
            right_margin: 0,
            upper_margin: 0,
            lower_margin: 0,
            hsync_len: 0,
            vsync_len: 0,
            sync: 0,
            vmode: 0,
            rotate: 0,
            colorspace: 0,
            reserved: [0, 0, 0, 0],
        }
    }
}

/// Force the mode the compositor relies on: 32 bits per pixel and a virtual
/// resolution identical to the visible one, with no panning offset.
pub fn configure_vinfo(v_info: &mut var_screeninfo)
    ensures
        final(v_info).bits_per_pixel == 32,
        final(v_info).xres_virtual == old(v_info).xres,
        final(v_info).yres_virtual == old(v_info).yres,
        final(v_info).xoffset == 0,
        final(v_info).yoffset == 0,
        final(v_info).xres == old(v_info).xres,
        final(v_info).yres == old(v_info).yres,
        *final(v_info) == (var_screeninfo {
            bits_per_pixel: 32u32,
            xres_virtual: old(v_info).xres,
            yres_virtual: old(v_info).yres,
            xoffset: 0u32,
            yoffset: 0u32,
            ..*old(v_info)
        }),
{
    v_info.bits_per_pixel = 32;
    v_info.xres_virtual = v_info.xres;
    v_info.yres_virtual = v_info.yres;
    v_info.xoffset = 0;
    v_info.yoffset = 0;
}

} // verus!

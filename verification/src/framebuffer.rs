//! A linear framebuffer: its size and where each pixel lives.
use vstd::prelude::*;

use crate::multiboot2::FrameBufferInfo;

verus! {

/// A pixel value in the framebuffer's own layout.
#[derive(Clone, Copy)]
pub struct Color(pub u32);

/// The framebuffer the loader set up.
pub struct FrameBuffer {
    info: FrameBufferInfo,
}

impl FrameBuffer {
    /// What the loader said of the framebuffer.
    pub closed spec fn info(&self) -> FrameBufferInfo {
        self.info
    }

    /// The framebuffer `info` describes.
    pub fn new(info: FrameBufferInfo) -> (r: FrameBuffer)
        ensures
            r.info() == info,
    {
        FrameBuffer { info }
    }

    /// Rows of pixels.
    pub fn height(&self) -> (r: u32)
        ensures
            r == self.info().height,
    {
        self.info.height
    }

    /// Pixels per row.
    pub fn width(&self) -> (r: u32)
        ensures
            r == self.info().width,
    {
        self.info.width
    }

    /// Bit offsets and size of the color channels, for converting colors.
    pub fn color_layout(&self) -> (r: (u8, u8, u8, u8))
        ensures
            r == (self.info().color_size, self.info().red_offset, self.info().green_offset, self.info().blue_offset),
    {
        (self.info.color_size, self.info.red_offset, self.info.green_offset, self.info.blue_offset)
    }

    /// Address of the first pixel.
    pub fn addr(&self) -> (r: u64)
        ensures
            r == self.info().addr,
    {
        self.info.addr
    }

    /// Byte offset of the pixel at `row` and `col`: whole rows of `pitch` bytes, then
    /// whole pixels.
    pub fn pixel_offset(&self, row: u32, col: u32) -> (r: usize)
        requires
            row * self.info().pitch + col * self.info().bytes_per_pix <= usize::MAX,
        ensures
            r == row * self.info().pitch + col * self.info().bytes_per_pix,
    {
        let a = row as usize;
        let b = self.info.pitch as usize;
        let c = col as usize;
        let d = self.info.bytes_per_pix as usize;
        assert(0 <= a * b <= a * b + c * d && 0 <= c * d) by (nonlinear_arith);
        a * b + c * d
    }
}

} // verus!

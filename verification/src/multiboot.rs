//! The boot information a multiboot (version 1) loader hands over.
use vstd::prelude::*;

use crate::acpi::{le32_at, read_le32};
use crate::multiboot2::{le64_at, read_le64};
use crate::util::bit_manipulation::{bit_set, GetBits};

verus! {

/// The fields of the multiboot information structure the kernel reads.
pub struct MultibootInfo {
    pub flags: u32,
    pub mmap_length: u32,
    pub mmap_addr: u32,
    pub framebuffer_addr: u64,
    pub framebuffer_pitch: u32,
    pub framebuffer_width: u32,
    pub framebuffer_height: u32,
    pub framebuffer_bpp: u8,
    pub framebuffer_type: u8,
    pub color_info: [u8; 6],
}

/// What the kernel needs to know of the framebuffer. Offsets and sizes are in bytes.
pub struct FrameBufferInfo {
    pub color_size: u8,
    pub red_offset: u8,
    pub blue_offset: u8,
    pub green_offset: u8,
    pub bytes_per_pix: u8,
    pub width: u32,
    pub pitch: u32,
    pub height: u32,
    pub addr: u64,
}

/// Why the loader's framebuffer cannot be used.
#[derive(PartialEq, Eq, Structural)]
pub enum FrameBufferInfoError {
    NoFramebuffer,
    InvalidColorType(u8),
    BitsPerPixNotByteAligned,
    ColorOffsetNotByteAligned,
}

/// The largest of three bytes.
pub open spec fn max3(a: u8, b: u8, c: u8) -> u8 {
    let ab = if a >= b {
        a
    } else {
        b
    };
    if ab >= c {
        ab
    } else {
        c
    }
}

/// One region of the memory map.
pub struct MultibootMmapEntry {
    pub size: u32,
    pub addr: u64,
    pub len: u64,
    pub typ: u32,
}

/// Bytes of one memory map entry.
pub const MMAP_ENTRY_SIZE: usize = 24;

/// The memory map entry at `i` of `b`.
pub open spec fn mmap_entry_at(b: Seq<u8>, i: int) -> MultibootMmapEntry {
    MultibootMmapEntry {
        size: le32_at(b, i),
        addr: le64_at(b, i + 4),
        len: le64_at(b, i + 12),
        typ: le32_at(b, i + 20),
    }
}

impl MultibootInfo {
    /// The framebuffer the loader set up. The loader's color positions are taken in
    /// the order blue, red, green, which is where they are found on the machines the
    /// kernel runs on; the color size is the largest of the three sizes.
    pub fn get_framebuffer_info(&self) -> (r: Result<FrameBufferInfo, FrameBufferInfoError>)
        ensures
            !bit_set(self.flags as nat, 12) ==> r == Err::<FrameBufferInfo, FrameBufferInfoError>(
                FrameBufferInfoError::NoFramebuffer,
            ),
            bit_set(self.flags as nat, 12) && self.framebuffer_type != 1 ==> r == Err::<
                FrameBufferInfo,
                FrameBufferInfoError,
            >(FrameBufferInfoError::InvalidColorType(self.framebuffer_type)),
            bit_set(self.flags as nat, 12) && self.framebuffer_type == 1 && self.framebuffer_bpp
                % 8 != 0 ==> r == Err::<FrameBufferInfo, FrameBufferInfoError>(
                FrameBufferInfoError::BitsPerPixNotByteAligned,
            ),
            bit_set(self.flags as nat, 12) && self.framebuffer_type == 1 && self.framebuffer_bpp
                % 8 == 0 && (self.color_info[0] % 8 != 0 || self.color_info[2] % 8 != 0
                || self.color_info[4] % 8 != 0) ==> r == Err::<
                FrameBufferInfo,
                FrameBufferInfoError,
            >(FrameBufferInfoError::ColorOffsetNotByteAligned),
            r is Ok <==> bit_set(self.flags as nat, 12) && self.framebuffer_type == 1
                && self.framebuffer_bpp % 8 == 0 && self.color_info[0] % 8 == 0
                && self.color_info[2] % 8 == 0 && self.color_info[4] % 8 == 0,
            r matches Ok(i) ==> {
                &&& i.color_size == max3(self.color_info[1], self.color_info[5], self.color_info[3])
                &&& i.addr == self.framebuffer_addr
                &&& i.blue_offset == self.color_info[0] / 8
                &&& i.red_offset == self.color_info[2] / 8
                &&& i.green_offset == self.color_info[4] / 8
                &&& i.bytes_per_pix == self.framebuffer_bpp / 8
                &&& i.height == self.framebuffer_height
                &&& i.width == self.framebuffer_width
                &&& i.pitch == self.framebuffer_pitch
            },
    {
        if !self.flags.get_bit(12) {
            return Err(FrameBufferInfoError::NoFramebuffer);
        }
        if self.framebuffer_type != 1 {
            return Err(FrameBufferInfoError::InvalidColorType(self.framebuffer_type));
        }
        let r_pos = self.color_info[0];
        let r_size = self.color_info[1];
        let g_pos = self.color_info[2];
        let g_size = self.color_info[3];
        let b_pos = self.color_info[4];
        let b_size = self.color_info[5];
        let rb = if r_size >= b_size {
            r_size
        } else {
            b_size
        };
        let color_size = if rb >= g_size {
            rb
        } else {
            g_size
        };
        if self.framebuffer_bpp % 8 != 0 {
            return Err(FrameBufferInfoError::BitsPerPixNotByteAligned);
        }
        if r_pos % 8 != 0 || g_pos % 8 != 0 || b_pos % 8 != 0 {
            return Err(FrameBufferInfoError::ColorOffsetNotByteAligned);
        }
        Ok(
            FrameBufferInfo {
                color_size,
                addr: self.framebuffer_addr,
                blue_offset: r_pos / 8,
                red_offset: g_pos / 8,
                green_offset: b_pos / 8,
                bytes_per_pix: self.framebuffer_bpp / 8,
                height: self.framebuffer_height,
                width: self.framebuffer_width,
                pitch: self.framebuffer_pitch,
            },
        )
    }

    /// Number of entries the memory map holds.
    pub open spec fn mmap_entry_count(&self) -> int {
        self.mmap_length as int / MMAP_ENTRY_SIZE as int
    }

    /// The memory map entries, read from `mmap`, the bytes at `mmap_addr`.
    pub fn get_mmap_addrs(&self, mmap: &[u8]) -> (r: Vec<MultibootMmapEntry>)
        requires
            self.mmap_entry_count() * MMAP_ENTRY_SIZE <= mmap@.len(),
        ensures
            r@.len() == self.mmap_entry_count(),
            forall|i: int|
                0 <= i < r@.len() ==> #[trigger] r@[i] == mmap_entry_at(mmap@, i * 24),
    {
        let n = mmap.len();
        let count = self.mmap_length as usize / MMAP_ENTRY_SIZE;
        let mut entries: Vec<MultibootMmapEntry> = Vec::new();
        let mut i: usize = 0;
        while i < count
            invariant
                i <= count,
                count == self.mmap_entry_count(),
                count * 24 <= mmap@.len(),
                n == mmap@.len(),
                entries@.len() == i,
                forall|j: int| 0 <= j < i ==> #[trigger] entries@[j] == mmap_entry_at(mmap@, j * 24),
            decreases count - i,
        {
            assert(i * 24 + 24 <= count * 24) by (nonlinear_arith)
                requires
                    i < count,
            ;
            let at = i * MMAP_ENTRY_SIZE;
            entries.push(
                MultibootMmapEntry {
                    size: read_le32(mmap, at),
                    addr: read_le64(mmap, at + 4),
                    len: read_le64(mmap, at + 12),
                    typ: read_le32(mmap, at + 20),
                },
            );
            i += 1;
        }
        entries
    }
}

} // verus!

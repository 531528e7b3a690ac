//! The multiboot2 boot information: walking its tags and reading the ones the kernel
//! needs.
use vstd::prelude::*;

use crate::acpi::{le32_at, read_le32, Rsdp, RSDP_LEN};

verus! {

/// Magic value a multiboot2 loader hands over.
pub const MULTIBOOT2_MAGIC: u32 = 0x36d76289;

/// Tag type of the memory map.
pub const TAG_MEMORY_MAP: u32 = 6;

/// Tag type of the framebuffer description.
pub const TAG_FRAMEBUFFER: u32 = 8;

/// Tag type of the ACPI 1.0 root pointer.
pub const TAG_RSDP: u32 = 14;

/// Tag type of the image load base address.
pub const TAG_IMAGE_LOAD: u32 = 21;

/// Size of a tag rounded up to the next multiple of 8, as tags are 8 byte aligned.
pub open spec fn padded_size(size: u32) -> nat {
    ((size as nat + 7) / 8) * 8
}

/// Where the walk continues after the tag at `loc`.
pub open spec fn after_tag(b: Seq<u8>, loc: nat) -> nat {
    loc + padded_size(le32_at(b, loc + 4int))
}

/// Whether `typ` is a tag type the kernel reads.
pub open spec fn known_tag(typ: u32) -> bool {
    typ == TAG_MEMORY_MAP || typ == TAG_FRAMEBUFFER || typ == TAG_RSDP || typ == TAG_IMAGE_LOAD
}

/// Whether walking the tags of `b` from `loc` to `end` reads only bytes that are there
/// and ends: each tag visited has its header and its padded size within `end` and,
/// unless it is the terminating tag (type 0), a non zero size.
pub open spec fn tags_walk_ok(b: Seq<u8>, loc: nat, end: nat) -> bool
    decreases end - loc,
{
    if loc == end {
        end <= b.len()
    } else if loc > end || loc + 8 > end || end > b.len() {
        false
    } else {
        let typ = le32_at(b, loc as int);
        let next = after_tag(b, loc);
        next <= end && (typ == 0 || (next > loc && tags_walk_ok(b, next, end)))
    }
}

/// Offset of the first tag of type `typ` (not zero) walking from `loc`.
pub open spec fn first_tag_of(b: Seq<u8>, loc: nat, end: nat, typ: u32) -> Option<int>
    decreases end - loc,
{
    if loc >= end || loc + 8 > end {
        None
    } else {
        let t = le32_at(b, loc as int);
        let next = after_tag(b, loc);
        if t == 0 {
            None
        } else if t == typ {
            Some(loc as int)
        } else if loc < next <= end {
            first_tag_of(b, next, end, typ)
        } else {
            None
        }
    }
}

/// The first tag of a type the kernel reads, walking from `loc`, with its offset and
/// type; `None` at `end` or at a terminating tag.
pub open spec fn next_known_tag(b: Seq<u8>, loc: nat, end: nat) -> Option<(nat, u32)>
    decreases end - loc,
{
    if loc >= end || loc + 8 > end {
        None
    } else {
        let typ = le32_at(b, loc as int);
        let next = after_tag(b, loc);
        if typ == 0 {
            None
        } else if known_tag(typ) {
            Some((loc, typ))
        } else if loc < next <= end {
            next_known_tag(b, next, end)
        } else {
            None
        }
    }
}

/// A tag the kernel reads, by type, with the offset where it starts.
#[derive(PartialEq, Eq, Structural)]
pub enum Tag {
    MemoryMap(usize),
    FrameBufferInfo(usize),
    Rsdp(usize),
    ImageLoad(usize),
}

/// Walks the tags of the boot information.
pub struct TagIterator<'a> {
    data: &'a [u8],
    loc: usize,
    end: usize,
}

impl<'a> TagIterator<'a> {
    /// Bytes of the boot information.
    pub closed spec fn bytes(&self) -> Seq<u8> {
        self.data@
    }

    /// Offset of the next tag.
    pub closed spec fn loc(&self) -> nat {
        self.loc as nat
    }

    /// Offset where the tags end.
    pub closed spec fn end(&self) -> nat {
        self.end as nat
    }

    /// The next tag the kernel reads; tags of other types are skipped.
    pub fn next(&mut self) -> (r: Option<Tag>)
        requires
            tags_walk_ok(old(self).bytes(), old(self).loc(), old(self).end()),
        ensures
            final(self).bytes() == old(self).bytes(),
            final(self).end() == old(self).end(),
            r is Some ==> tags_walk_ok(final(self).bytes(), final(self).loc(), final(self).end()),
            match next_known_tag(old(self).bytes(), old(self).loc(), old(self).end()) {
                None => r is None,
                Some((loc, typ)) => {
                    &&& old(self).loc() <= loc
                    &&& loc + 8 <= old(self).end() <= old(self).bytes().len()
                    &&& final(self).loc() == after_tag(old(self).bytes(), loc)
                    &&& final(self).loc() > loc
                    &&& r == Some(
                        if typ == TAG_MEMORY_MAP {
                            Tag::MemoryMap(loc as usize)
                        } else if typ == TAG_FRAMEBUFFER {
                            Tag::FrameBufferInfo(loc as usize)
                        } else if typ == TAG_RSDP {
                            Tag::Rsdp(loc as usize)
                        } else {
                            Tag::ImageLoad(loc as usize)
                        },
                    )
                },
            },
    {
        loop
            invariant
                self.data@ == old(self).bytes(),
                self.end == old(self).end(),
                old(self).loc() <= self.loc,
                tags_walk_ok(self.data@, self.loc as nat, self.end as nat),
                next_known_tag(self.data@, self.loc as nat, self.end as nat) == next_known_tag(
                    old(self).bytes(),
                    old(self).loc(),
                    old(self).end(),
                ),
            decreases self.end - self.loc,
        {
            proof {
                lemma_next_known_tag_advances(self.data@, self.loc as nat, self.end as nat);
            }
            if self.loc == self.end {
                return None;
            }
            let typ = read_le32(self.data, self.loc);
            let size = read_le32(self.data, self.loc + 4);
            let padded = ((size as u64 + 7) / 8 * 8) as usize;
            let item = self.loc;
            self.loc = self.loc + padded;
            if typ == 0 {
                return None;
            } else if typ == TAG_MEMORY_MAP {
                return Some(Tag::MemoryMap(item));
            } else if typ == TAG_FRAMEBUFFER {
                return Some(Tag::FrameBufferInfo(item));
            } else if typ == TAG_RSDP {
                return Some(Tag::Rsdp(item));
            } else if typ == TAG_IMAGE_LOAD {
                return Some(Tag::ImageLoad(item));
            }
        }
    }
}

proof fn lemma_next_known_tag_advances(b: Seq<u8>, loc: nat, end: nat)
    requires
        tags_walk_ok(b, loc, end),
    ensures
        match next_known_tag(b, loc, end) {
            Some((l, t)) => {
                &&& loc <= l
                &&& known_tag(t)
                &&& l + 8 <= end <= b.len()
                &&& l < after_tag(b, l) <= end
                &&& tags_walk_ok(b, after_tag(b, l), end)
            },
            None => true,
        },
    decreases end - loc,
{
    if loc < end && loc + 8 <= end {
        let t = le32_at(b, loc as int);
        let next = after_tag(b, loc);
        if t != 0 && !known_tag(t) {
            lemma_next_known_tag_advances(b, next, end);
        }
    }
}

proof fn lemma_first_tag_of(b: Seq<u8>, loc: nat, end: nat, typ: u32)
    requires
        tags_walk_ok(b, loc, end),
        known_tag(typ),
    ensures
        first_tag_of(b, loc, end, typ) == match next_known_tag(b, loc, end) {
            None => None,
            Some((l, t)) => if t == typ {
                Some(l as int)
            } else {
                first_tag_of(b, after_tag(b, l), end, typ)
            },
        },
    decreases end - loc,
{
    if loc < end && loc + 8 <= end {
        let t = le32_at(b, loc as int);
        let next = after_tag(b, loc);
        if t != 0 && !known_tag(t) {
            lemma_first_tag_of(b, next, end, typ);
        }
    }
}

/// A memory region the firmware reports.
pub struct MemoryMapEntry {
    pub addr: u64,
    pub len: u64,
    pub typ: u32,
    pub reserved: u32,
}

/// What the kernel needs to know of the framebuffer. Offsets and sizes are in bytes.
pub struct FrameBufferInfo {
    pub color_size: u8,
    pub red_offset: u8,
    pub blue_offset: u8,
    pub green_offset: u8,
    pub bytes_per_pix: u8,
    pub width: u32,
    pub pitch: u32,
    pub height: u32,
    pub addr: u64,
}

/// Little endian value of eight bytes at `i` of `b`.
pub open spec fn le64_at(b: Seq<u8>, i: int) -> u64 {
    (le32_at(b, i) as nat + le32_at(b, i + 4) as nat * 0x1_0000_0000) as u64
}

/// Reads the little endian `u64` at `i` of `b`.
pub fn read_le64(b: &[u8], i: usize) -> (r: u64)
    requires
        i + 8 <= b@.len(),
    ensures
        r == le64_at(b@, i as int),
{
    let n = b.len();  // bounds the length by usize::MAX for what follows
    (read_le32(b, i) as u64) + (read_le32(b, i + 4) as u64) * 0x1_0000_0000
}

/// Size of one memory map entry.
pub const MMAP_ENTRY_LEN: usize = 24;

/// The memory map entry at `i` of `b`.
pub open spec fn mmap_entry_at(b: Seq<u8>, i: int) -> MemoryMapEntry {
    MemoryMapEntry {
        addr: le64_at(b, i),
        len: le64_at(b, i + 8),
        typ: le32_at(b, i + 16),
        reserved: le32_at(b, i + 20),
    }
}

/// Whether the framebuffer tag at `p` of `b` is there and describes byte aligned
/// colors of one size.
pub open spec fn framebuffer_tag_ok(b: Seq<u8>, p: int) -> bool {
    &&& p + 38 <= b.len()
    &&& b[p + 33] == b[p + 35]
    &&& b[p + 33] == b[p + 37]
    &&& b[p + 32] % 8 == 0
    &&& b[p + 34] % 8 == 0
    &&& b[p + 36] % 8 == 0
    &&& b[p + 28] % 8 == 0
}

/// The boot information a multiboot2 loader handed over.
pub struct Multiboot2<'a> {
    info: &'a [u8],
}

impl<'a> Multiboot2<'a> {
    /// Bytes of the boot information.
    pub closed spec fn bytes(&self) -> Seq<u8> {
        self.info@
    }

    /// Offset where the tags end: the total size field.
    pub open spec fn tags_end(&self) -> nat {
        le32_at(self.bytes(), 0) as nat
    }

    /// Whether the tags can be walked.
    pub open spec fn wf(&self) -> bool {
        &&& self.bytes().len() >= 8
        &&& tags_walk_ok(self.bytes(), 8, self.tags_end())
    }

    /// The boot information at `info`, handed over with `magic`.
    pub fn new(magic: u32, info: &'a [u8]) -> (r: Multiboot2<'a>)
        requires
            magic == MULTIBOOT2_MAGIC,
        ensures
            r.bytes() == info@,
    {
        Multiboot2 { info }
    }

    /// Whether the tags can be walked and the tags the kernel reads lie within the
    /// boot information: what the readers below ask of it.
    pub open spec fn readable(&self) -> bool {
        let b = self.bytes();
        &&& self.wf()
        &&& first_tag_of(b, 8, self.tags_end(), TAG_RSDP) matches Some(p) ==> p + 8 + RSDP_LEN
            <= b.len()
        &&& first_tag_of(b, 8, self.tags_end(), TAG_FRAMEBUFFER) matches Some(p)
            ==> framebuffer_tag_ok(b, p)
        &&& first_tag_of(b, 8, self.tags_end(), TAG_MEMORY_MAP) matches Some(p) ==> le32_at(
            b,
            p + 4,
        ) >= 16 && p + le32_at(b, p + 4) <= b.len()
    }

    /// Whether the tags can be walked, from `loc` on.
    fn walk_ok(&self, loc: usize, end: usize) -> (r: bool)
        requires
            loc <= end,
            end <= self.bytes().len(),
            end <= u32::MAX,
        ensures
            r == tags_walk_ok(self.bytes(), loc as nat, end as nat),
        decreases end - loc,
    {
        let b = self.info;
        if loc == end {
            return true;
        }
        if end - loc < 8 {
            return false;
        }
        let typ = read_le32(b, loc);
        let size = read_le32(b, loc + 4) as u64;
        let next = loc as u64 + ((size + 7) / 8) * 8;
        if next > end as u64 {
            return false;
        }
        if typ == 0 {
            return true;
        }
        if next <= loc as u64 {
            return false;
        }
        self.walk_ok(next as usize, end)
    }

    /// Checks [`Multiboot2::readable`].
    pub fn check(&self) -> (r: bool)
        ensures
            r == self.readable(),
    {
        let b = self.info;
        if b.len() < 8 {
            return false;
        }
        let end = read_le32(b, 0) as usize;
        if end < 8 {
            proof {
                assert(!tags_walk_ok(self.bytes(), 8, self.tags_end()));
            }
            return false;
        }
        if end > b.len() {
            proof {
                assert(!tags_walk_ok(self.bytes(), 8, self.tags_end()));
            }
            return false;
        }
        if !self.walk_ok(8, end) {
            return false;
        }
        let rsdp_ok = match self.find_tag(TAG_RSDP) {
            Some(p) => 8 + RSDP_LEN <= b.len() - p,
            None => true,
        };
        let fb_ok = match self.find_tag(TAG_FRAMEBUFFER) {
            Some(p) => 38 <= b.len() - p && b[p + 33] == b[p + 35] && b[p + 33] == b[p + 37] && b[p
                + 32] % 8 == 0 && b[p + 34] % 8 == 0 && b[p + 36] % 8 == 0 && b[p + 28] % 8 == 0,
            None => true,
        };
        let mmap_ok = match self.find_tag(TAG_MEMORY_MAP) {
            Some(p) => {
                let size = read_le32(b, p + 4) as usize;
                size >= 16 && size <= b.len() - p
            },
            None => true,
        };
        rsdp_ok && fb_ok && mmap_ok
    }

    /// Walks the tags.
    pub fn tags(&self) -> (r: TagIterator<'a>)
        requires
            self.wf(),
        ensures
            r.bytes() == self.bytes(),
            r.loc() == 8,
            r.end() == self.tags_end(),
    {
        let end = read_le32(self.info, 0) as usize;
        TagIterator { data: self.info, loc: 8, end }
    }

    /// Offset of the first tag of type `typ`.
    #[verifier::rlimit(40)]
    pub fn find_tag(&self, typ: u32) -> (r: Option<usize>)
        requires
            self.wf(),
            known_tag(typ),
        ensures
            r is None <==> first_tag_of(self.bytes(), 8, self.tags_end(), typ) is None,
            r matches Some(q) ==> first_tag_of(self.bytes(), 8, self.tags_end(), typ) == Some(
                q as int,
            ) && q + 8 <= self.bytes().len(),
    {
        let n = self.info.len();
        let mut it = self.tags();
        loop
            invariant
                it.bytes() == self.bytes(),
                it.end() == self.tags_end(),
                n == self.bytes().len(),
                known_tag(typ),
                tags_walk_ok(it.bytes(), it.loc(), it.end()),
                first_tag_of(it.bytes(), it.loc(), it.end(), typ) == first_tag_of(
                    self.bytes(),
                    8,
                    self.tags_end(),
                    typ,
                ),
            decreases it.end() - it.loc(),
        {
            proof {
                lemma_first_tag_of(it.bytes(), it.loc(), it.end(), typ);
            }
            let ghost l0 = it.loc();
            proof {
                lemma_next_known_tag_advances(it.bytes(), l0, it.end());
            }
            match it.next() {
                None => {
                    return None;
                },
                Some(tag) => {
                    let (p, t) = match tag {
                        Tag::MemoryMap(p) => (p, TAG_MEMORY_MAP),
                        Tag::FrameBufferInfo(p) => (p, TAG_FRAMEBUFFER),
                        Tag::Rsdp(p) => (p, TAG_RSDP),
                        Tag::ImageLoad(p) => (p, TAG_IMAGE_LOAD),
                    };
                    assert(next_known_tag(it.bytes(), l0, it.end()) == Some((p as nat, t)));
                    if t == typ {
                        return Some(p);
                    }
                },
            }
        }
    }

    /// The ACPI root pointer the loader copied, if any.
    pub fn get_rsdp(&self) -> (r: Option<Rsdp>)
        requires
            self.wf(),
            first_tag_of(self.bytes(), 8, self.tags_end(), TAG_RSDP) matches Some(p) ==> p + 8
                + RSDP_LEN <= self.bytes().len(),
        ensures
            match first_tag_of(self.bytes(), 8, self.tags_end(), TAG_RSDP) {
                Some(p) => r matches Some(rsdp) && rsdp@ == self.bytes().subrange(
                    p + 8,
                    p + 8 + RSDP_LEN,
                ),
                None => r is None,
            },
    {
        let n = self.info.len();  // bounds the length by usize::MAX for what follows
        match self.find_tag(TAG_RSDP) {
            Some(p) => {
                let rsdp = Rsdp::from_bytes(&self.info[p + 8..p + 8 + RSDP_LEN]);
                assert(rsdp@ =~= self.bytes().subrange(p + 8, p + 8 + RSDP_LEN));
                Some(rsdp)
            },
            None => None,
        }
    }

    /// The framebuffer the loader set up, if any.
    pub fn get_framebuffer_info(&self) -> (r: Option<FrameBufferInfo>)
        requires
            self.wf(),
            first_tag_of(self.bytes(), 8, self.tags_end(), TAG_FRAMEBUFFER) matches Some(p)
                ==> framebuffer_tag_ok(self.bytes(), p),
        ensures
            match first_tag_of(self.bytes(), 8, self.tags_end(), TAG_FRAMEBUFFER) {
                Some(p) => {
                    let b = self.bytes();
                    r matches Some(i) && i.color_size == b[p + 33] && i.red_offset == b[p + 32]
                        / 8 && i.green_offset == b[p + 34] / 8 && i.blue_offset == b[p + 36] / 8
                        && i.bytes_per_pix == b[p + 28] / 8 && i.width == le32_at(b, p + 20)
                        && i.pitch == le32_at(b, p + 16) && i.height == le32_at(b, p + 24)
                        && i.addr == le64_at(b, p + 8)
                },
                None => r is None,
            },
    {
        let n = self.info.len();  // bounds the length by usize::MAX for what follows
        match self.find_tag(TAG_FRAMEBUFFER) {
            Some(p) => {
                let b = self.info;
                Some(
                    FrameBufferInfo {
                        color_size: b[p + 33],
                        red_offset: b[p + 32] / 8,
                        blue_offset: b[p + 36] / 8,
                        green_offset: b[p + 34] / 8,
                        bytes_per_pix: b[p + 28] / 8,
                        width: read_le32(b, p + 20),
                        pitch: read_le32(b, p + 16),
                        height: read_le32(b, p + 24),
                        addr: read_le64(b, p + 8),
                    },
                )
            },
            None => None,
        }
    }

    /// The memory map the firmware reported, if any.
    pub fn get_mmap_addrs(&self) -> (r: Option<Vec<MemoryMapEntry>>)
        requires
            self.wf(),
            first_tag_of(self.bytes(), 8, self.tags_end(), TAG_MEMORY_MAP) matches Some(p)
                ==> le32_at(self.bytes(), p + 4) >= 16 && p + le32_at(self.bytes(), p + 4)
                <= self.bytes().len(),
        ensures
            match first_tag_of(self.bytes(), 8, self.tags_end(), TAG_MEMORY_MAP) {
                Some(p) => r matches Some(v) && v@.len() == (le32_at(self.bytes(), p + 4) - 16)
                    / 24 as int && forall|i: int|
                    0 <= i < v@.len() ==> #[trigger] v@[i] == mmap_entry_at(
                        self.bytes(),
                        p + 16 + 24 * i,
                    ),
                None => r is None,
            },
    {
        let n = self.info.len();
        match self.find_tag(TAG_MEMORY_MAP) {
            Some(p) => {
                let size = read_le32(self.info, p + 4) as usize;
                let count = (size - 16) / MMAP_ENTRY_LEN;
                let mut entries: Vec<MemoryMapEntry> = Vec::new();
                let mut i: usize = 0;
                while i < count
                    invariant
                        i <= count,
                        count == (size - 16) / 24,
                        size == le32_at(self.bytes(), p + 4),
                        p + size <= self.bytes().len(),
                        n == self.bytes().len(),
                        size >= 16,
                        entries@.len() == i,
                        forall|j: int|
                            0 <= j < i ==> #[trigger] entries@[j] == mmap_entry_at(
                                self.bytes(),
                                p + 16 + 24 * j,
                            ),
                    decreases count - i,
                {
                    assert(24 * i + 24 <= size - 16) by (nonlinear_arith)
                        requires
                            i < count,
                            count == (size - 16) / 24,
                            size >= 16,
                    ;
                    let at = p + 16 + 24 * i;
                    let entry = MemoryMapEntry {
                        addr: read_le64(self.info, at),
                        len: read_le64(self.info, at + 8),
                        typ: read_le32(self.info, at + 16),
                        reserved: read_le32(self.info, at + 20),
                    };
                    entries.push(entry);
                    i += 1;
                }
                Some(entries)
            },
            None => None,
        }
    }
}

} // verus!

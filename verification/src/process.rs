//! Loading an ELF program into a flat image: where its loadable segments go and
//! what bytes end up there.
use vstd::prelude::*;

use crate::libc::slice_copy;

verus! {

/// Program header type of a loadable segment.
pub const PT_LOAD: u32 = 1;

/// What the loader reads of a program header.
#[derive(Clone, Copy)]
pub struct Segment {
    pub p_type: u32,
    pub p_offset: u64,
    pub p_vaddr: u64,
    pub p_filesz: u64,
    pub p_memsz: u64,
}

/// What the loader reads of an ELF file: its entry point and its program headers
/// (`None` when it has no program header table).
pub struct ElfInfo {
    pub entry: u64,
    pub segments: Option<Vec<Segment>>,
}

/// The fields of a segment, as a tuple.
pub open spec fn segment_fields(s: Segment) -> (u32, u64, u64, u64, u64) {
    (s.p_type, s.p_offset, s.p_vaddr, s.p_filesz, s.p_memsz)
}

/// The program headers of a parsed file, as tuples of their fields.
pub open spec fn segments_view(v: Option<Vec<Segment>>) -> Option<Seq<(u32, u64, u64, u64, u64)>> {
    match v {
        None => None,
        Some(v) => Some(v@.map_values(|s: Segment| segment_fields(s))),
    }
}

/// What the `elf` crate reads from the little endian ELF file `data`: `None` when
/// `ElfBytes::minimal_parse` rejects it, else the entry point of its file header and
/// the program headers its segment table yields, as tuples of type, offset, virtual
/// address, file size and memory size.
pub uninterp spec fn elf_load_info_of(data: Seq<u8>) -> Option<
    (u64, Option<Seq<(u32, u64, u64, u64, u64)>>),
>;

/// Parses `elf_file` with `elf::ElfBytes::<LittleEndian>::minimal_parse` and reads
/// the entry point (`ehdr.e_entry`) and the program headers (`segments()`, walked
/// with `iter()`), each converted to a [`Segment`]. The contract names the result
/// and says no more of it: what the crate accepts and yields is its own.
#[verifier::external_body]
fn elf_load_info(elf_file: &[u8]) -> (r: Option<ElfInfo>)
    ensures
        match r {
            None => elf_load_info_of(elf_file@) is None,
            Some(info) => elf_load_info_of(elf_file@) == Some(
                (info.entry, segments_view(info.segments)),
            ),
        },
{
    let data = elf::ElfBytes::<elf::endian::LittleEndian>::minimal_parse(elf_file).ok()?;
    let segments = data.segments().map(
        |table|
            table.iter().map(
                |s| Segment {
                    p_type: s.p_type,
                    p_offset: s.p_offset,
                    p_vaddr: s.p_vaddr,
                    p_filesz: s.p_filesz,
                    p_memsz: s.p_memsz,
                },
            ).collect(),
    );
    Some(ElfInfo { entry: data.ehdr.e_entry, segments })
}

/// Reads the entry point and program headers of `elf_file`; `None` when the `elf`
/// crate cannot parse it.
pub fn load_info(elf_file: &[u8]) -> (r: Option<ElfInfo>)
    ensures
        match r {
            None => elf_load_info_of(elf_file@) is None,
            Some(info) => elf_load_info_of(elf_file@) == Some(
                (info.entry, segments_view(info.segments)),
            ),
        },
{
    elf_load_info(elf_file)
}

/// The lowest start and highest end of the loadable segments of `s`, from `(lo, hi)`
/// on.
pub open spec fn mapped_range(s: Seq<Segment>) -> (u64, u64)
    decreases s.len(),
{
    if s.len() == 0 {
        (u64::MAX, 0u64)
    } else {
        let (lo, hi) = mapped_range(s.drop_last());
        let seg = s.last();
        if seg.p_type == PT_LOAD {
            (
                if seg.p_vaddr < lo {
                    seg.p_vaddr
                } else {
                    lo
                },
                if seg.p_vaddr + seg.p_memsz > hi {
                    (seg.p_vaddr + seg.p_memsz) as u64
                } else {
                    hi
                },
            )
        } else {
            (lo, hi)
        }
    }
}

/// Whether no loadable segment of `s` ends past the address space.
pub open spec fn segments_fit(s: Seq<Segment>) -> bool {
    forall|i: int|
        0 <= i < s.len() && #[trigger] s[i].p_type == PT_LOAD ==> s[i].p_vaddr + s[i].p_memsz
            <= u64::MAX
}

/// The lowest address and the end of the highest of the loadable segments; with no
/// loadable segment, `u64::MAX` and 0.
pub fn get_min_max_mapped_address(segments: &[Segment]) -> (r: (u64, u64))
    requires
        segments_fit(segments@),
    ensures
        r == mapped_range(segments@),
{
    let mut smallest_address = u64::MAX;
    let mut largest_address = 0u64;
    let mut i: usize = 0;
    while i < segments.len()
        invariant
            i <= segments@.len(),
            segments_fit(segments@),
            (smallest_address, largest_address) == mapped_range(segments@.take(i as int)),
        decreases segments@.len() - i,
    {
        let segment = segments[i];
        proof {
            assert(segments@.take(i + 1).drop_last() =~= segments@.take(i as int));
        }
        if segment.p_type == PT_LOAD {
            if segment.p_vaddr < smallest_address {
                smallest_address = segment.p_vaddr;
            }
            if segment.p_vaddr + segment.p_memsz > largest_address {
                largest_address = segment.p_vaddr + segment.p_memsz;
            }
        }
        i += 1;
    }
    proof {
        assert(segments@.take(segments@.len() as int) =~= segments@);
    }
    (smallest_address, largest_address)
}

/// `image` with the file bytes of segment `seg` of `file` copied to where it goes,
/// its address less `base`.
pub open spec fn with_segment(image: Seq<u8>, file: Seq<u8>, seg: Segment, base: u64) -> Seq<
    u8,
> {
    let at = seg.p_vaddr - base;
    image.subrange(0, at) + file.subrange(seg.p_offset as int, seg.p_offset + seg.p_filesz)
        + image.subrange(at + seg.p_filesz, image.len() as int)
}

/// The image of `len` zero bytes with the loadable segments of `s` copied in, in
/// order.
pub open spec fn mapped_image(file: Seq<u8>, s: Seq<Segment>, base: u64, len: nat) -> Seq<u8>
    decreases s.len(),
{
    if s.len() == 0 {
        Seq::new(len, |i: int| 0u8)
    } else {
        let before = mapped_image(file, s.drop_last(), base, len);
        if s.last().p_type == PT_LOAD {
            with_segment(before, file, s.last(), base)
        } else {
            before
        }
    }
}

/// Whether each loadable segment of `s` can be copied: its file bytes are in `file`
/// and land within the image of `len` bytes starting at `base`.
pub open spec fn segments_copyable(file: Seq<u8>, s: Seq<Segment>, base: u64, len: nat) -> bool {
    forall|i: int|
        0 <= i < s.len() && #[trigger] s[i].p_type == PT_LOAD ==> {
            &&& base <= s[i].p_vaddr
            &&& s[i].p_offset + s[i].p_filesz <= file.len()
            &&& s[i].p_vaddr - base + s[i].p_filesz <= len
        }
}

/// A program laid out in memory, ready to run.
pub struct MappedProcess {
    pub image: Vec<u8>,
    pub entry_offset: usize,
}

/// Lays the loadable segments of `segments`, read from `elf_file`, out in an image
/// that starts at the lowest segment address, and finds the entry point `entry` in it.
pub fn map_process(elf_file: &[u8], segments: &[Segment], entry: u64) -> (r: MappedProcess)
    requires
        segments_fit(segments@),
        mapped_range(segments@).0 <= mapped_range(segments@).1,
        mapped_range(segments@).1 - mapped_range(segments@).0 <= usize::MAX,
        mapped_range(segments@).0 <= entry,
        segments_copyable(
            elf_file@,
            segments@,
            mapped_range(segments@).0,
            (mapped_range(segments@).1 - mapped_range(segments@).0) as nat,
        ),
    ensures
        ({
            let (lo, hi) = mapped_range(segments@);
            &&& r.image@ == mapped_image(elf_file@, segments@, lo, (hi - lo) as nat)
            &&& r.entry_offset == (entry - lo) as usize
        }),
{
    let (min_addr, max_addr) = get_min_max_mapped_address(segments);
    let len = (max_addr - min_addr) as usize;
    let mut mapped_process: Vec<u8> = Vec::new();
    let mut k: usize = 0;
    while k < len
        invariant
            k <= len,
            mapped_process@ == Seq::new(k as nat, |i: int| 0u8),
        decreases len - k,
    {
        mapped_process.push(0);
        k += 1;
        assert(mapped_process@ =~= Seq::new(k as nat, |i: int| 0u8));
    }
    let mut i: usize = 0;
    while i < segments.len()
        invariant
            i <= segments@.len(),
            min_addr == mapped_range(segments@).0,
            max_addr == mapped_range(segments@).1,
            len == max_addr - min_addr,
            segments_copyable(elf_file@, segments@, min_addr, len as nat),
            mapped_process@ == mapped_image(elf_file@, segments@.take(i as int), min_addr, len as nat),
            mapped_process@.len() == len,
        decreases segments@.len() - i,
    {
        let segment = segments[i];
        proof {
            assert(segments@.take(i + 1).drop_last() =~= segments@.take(i as int));
        }
        if segment.p_type == PT_LOAD {
            assert(segments@[i as int].p_type == PT_LOAD);
            let file_len = elf_file.len();
            let mapped_addr = (segment.p_vaddr - min_addr) as usize;
            let source_start = segment.p_offset as usize;
            let mut j: usize = 0;
            let ghost before = mapped_process@;
            while j < segment.p_filesz as usize
                invariant
                    j <= segment.p_filesz,
                    mapped_addr + segment.p_filesz <= len,
                    source_start + segment.p_filesz <= elf_file@.len(),
                    source_start == segment.p_offset,
                    file_len == elf_file@.len(),
                    mapped_process@.len() == len,
                    forall|m: int| 0 <= m < mapped_addr ==> #[trigger] mapped_process@[m] == before[m],
                    forall|m: int|
                        mapped_addr <= m < mapped_addr + j ==> #[trigger] mapped_process@[m]
                            == elf_file@[source_start + m - mapped_addr],
                    forall|m: int|
                        mapped_addr + j <= m < len ==> #[trigger] mapped_process@[m] == before[m],
                decreases segment.p_filesz - j,
            {
                mapped_process.set(mapped_addr + j, elf_file[source_start + j]);
                j += 1;
            }
            proof {
                assert(mapped_process@ =~= with_segment(before, elf_file@, segment, min_addr));
            }
        }
        i += 1;
    }
    proof {
        assert(segments@.take(segments@.len() as int) =~= segments@);
    }
    MappedProcess { image: mapped_process, entry_offset: (entry - min_addr) as usize }
}

/// A program header from the tuple of its fields.
pub open spec fn segment_of(t: (u32, u64, u64, u64, u64)) -> Segment {
    Segment { p_type: t.0, p_offset: t.1, p_vaddr: t.2, p_filesz: t.3, p_memsz: t.4 }
}

/// Whether the program with entry point `entry` and program headers `segs`, read from
/// `file`, can be laid out: its loadable segments end within the address space, there
/// is at least one, the image fits in memory, the entry point is not below it, and
/// each segment's bytes are in the file and land in the image.
pub open spec fn runnable(file: Seq<u8>, segs: Seq<Segment>, entry: u64) -> bool {
    let (lo, hi) = mapped_range(segs);
    &&& segments_fit(segs)
    &&& lo <= hi
    &&& hi - lo <= usize::MAX
    &&& lo <= entry
    &&& segments_copyable(file, segs, lo, (hi - lo) as nat)
}

/// Whether the loadable segments of `segments` end within the address space.
fn check_segments_fit(segments: &[Segment]) -> (r: bool)
    ensures
        r == segments_fit(segments@),
{
    let mut i: usize = 0;
    while i < segments.len()
        invariant
            i <= segments@.len(),
            forall|j: int|
                0 <= j < i && #[trigger] segments@[j].p_type == PT_LOAD ==> segments@[j].p_vaddr
                    + segments@[j].p_memsz <= u64::MAX,
        decreases segments@.len() - i,
    {
        let s = segments[i];
        if s.p_type == PT_LOAD && s.p_vaddr > u64::MAX - s.p_memsz {
            assert(segments@[i as int].p_type == PT_LOAD);
            return false;
        }
        i += 1;
    }
    true
}

/// Whether each loadable segment of `segments` has its bytes in `file` and lands in
/// the image of `len` bytes at `base`.
fn check_segments_copyable(file: &[u8], segments: &[Segment], base: u64, len: u64) -> (r: bool)
    ensures
        r == segments_copyable(file@, segments@, base, len as nat),
{
    let file_len = file.len() as u64;
    let mut i: usize = 0;
    while i < segments.len()
        invariant
            i <= segments@.len(),
            file_len == file@.len(),
            forall|j: int|
                0 <= j < i && #[trigger] segments@[j].p_type == PT_LOAD ==> {
                    &&& base <= segments@[j].p_vaddr
                    &&& segments@[j].p_offset + segments@[j].p_filesz <= file@.len()
                    &&& segments@[j].p_vaddr - base + segments@[j].p_filesz <= len
                },
        decreases segments@.len() - i,
    {
        let s = segments[i];
        if s.p_type == PT_LOAD {
            let ok = base <= s.p_vaddr && s.p_offset <= file_len && s.p_filesz <= file_len
                - s.p_offset && s.p_vaddr - base <= len && s.p_filesz <= len - (s.p_vaddr - base);
            if !ok {
                assert(segments@[i as int].p_type == PT_LOAD);
                return false;
            }
        }
        i += 1;
    }
    true
}

/// Lays out the program that `info` describes, read from `elf_file`: `None` where it
/// has no program header table or is not [`runnable`].
pub fn run_loaded_process(elf_file: &[u8], info: ElfInfo) -> (r: Option<MappedProcess>)
    ensures
        match info.segments {
            Some(segs) => {
                let (lo, hi) = mapped_range(segs@);
                &&& r is Some <==> runnable(elf_file@, segs@, info.entry)
                &&& r matches Some(p) ==> p.image@ == mapped_image(
                    elf_file@,
                    segs@,
                    lo,
                    (hi - lo) as nat,
                ) && p.entry_offset == (info.entry - lo) as usize
            },
            None => r is None,
        },
{
    let entry = info.entry;
    let segments = match info.segments {
        Some(s) => s,
        None => {
            return None;
        },
    };
    if !check_segments_fit(segments.as_slice()) {
        return None;
    }
    let (lo, hi) = get_min_max_mapped_address(segments.as_slice());
    if lo > hi || hi - lo > usize::MAX as u64 || entry < lo {
        return None;
    }
    if !check_segments_copyable(elf_file, segments.as_slice(), lo, hi - lo) {
        return None;
    }
    Some(map_process(elf_file, segments.as_slice(), entry))
}

/// Reads `elf_file` and lays it out in memory; `None` where the file cannot be run
/// this way: the `elf` crate rejects it, it has no program header table, or the
/// program is not [`runnable`].
pub fn run_process(elf_file: &[u8]) -> (r: Option<MappedProcess>)
    ensures
        match elf_load_info_of(elf_file@) {
            Some((entry, Some(ts))) => {
                let segs = ts.map_values(|t: (u32, u64, u64, u64, u64)| segment_of(t));
                let (lo, hi) = mapped_range(segs);
                &&& r is Some <==> runnable(elf_file@, segs, entry)
                &&& r matches Some(p) ==> p.image@ == mapped_image(
                    elf_file@,
                    segs,
                    lo,
                    (hi - lo) as nat,
                ) && p.entry_offset == (entry - lo) as usize
            },
            _ => r is None,
        },
{
    let info = match load_info(elf_file) {
        Some(info) => info,
        None => {
            return None;
        },
    };
    proof {
        if info.segments is Some {
            let segments = info.segments->0;
            let ts = segments@.map_values(|s: Segment| segment_fields(s));
            assert(ts.map_values(|t: (u32, u64, u64, u64, u64)| segment_of(t)) =~= segments@);
        }
    }
    run_loaded_process(elf_file, info)
}

} // verus!

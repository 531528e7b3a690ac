//! The kernel heap: a first-fit allocator over an address-ordered list of free
//! segments. Every segment, free or handed out, starts with a header of
//! `SEGMENT_HEADER_SIZE` bytes; an allocation is carved from the end of the first
//! free segment that can hold it, and a freed block is put back in address order,
//! merged with the free neighbours it touches.
use vstd::prelude::*;

use crate::multiboot2::MemoryMapEntry;

verus! {

/// Bytes taken by the header in front of every segment.
pub const SEGMENT_HEADER_SIZE: usize = 8;

/// A free segment: its header at `addr`, then `size` free bytes.
#[derive(Clone, Copy, Debug, PartialEq, Eq, Structural)]
pub struct FreeSegment {
    pub addr: usize,
    pub size: usize,
}

/// A segment handed out: its header at `addr`, then the `size` bytes of the block.
#[derive(Clone, Copy, Debug, PartialEq, Eq, Structural)]
pub struct UsedSegment {
    pub addr: usize,
    pub size: usize,
}

impl FreeSegment {
    /// First byte after the header.
    pub open spec fn start(self) -> int {
        self.addr + SEGMENT_HEADER_SIZE
    }

    /// First byte after the segment.
    pub open spec fn end(self) -> int {
        self.addr + SEGMENT_HEADER_SIZE + self.size
    }

    fn get_start(&self) -> (r: usize)
        requires
            self.start() <= usize::MAX,
        ensures
            r == self.start(),
    {
        self.addr + SEGMENT_HEADER_SIZE
    }

    fn get_end(&self) -> (r: usize)
        requires
            self.end() <= usize::MAX,
        ensures
            r == self.end(),
    {
        self.addr + SEGMENT_HEADER_SIZE + self.size
    }

    /// Moves the end of the segment to `end`, keeping its header where it is.
    fn set_end(&mut self, end: usize)
        requires
            old(self).start() <= end,
        ensures
            final(self).addr == old(self).addr,
            final(self).end() == end,
    {
        self.size = end - (self.addr + SEGMENT_HEADER_SIZE);
    }
}

impl UsedSegment {
    /// First byte of the block.
    pub open spec fn start(self) -> int {
        self.addr + SEGMENT_HEADER_SIZE
    }

    /// First byte after the block.
    pub open spec fn end(self) -> int {
        self.addr + SEGMENT_HEADER_SIZE + self.size
    }

    fn get_start(&self) -> (r: usize)
        requires
            self.start() <= usize::MAX,
        ensures
            r == self.start(),
    {
        self.addr + SEGMENT_HEADER_SIZE
    }

    /// Moves the end of the block to `end`, keeping its header where it is.
    fn set_end(&mut self, end: usize)
        requires
            old(self).start() <= end,
        ensures
            final(self).addr == old(self).addr,
            final(self).end() == end,
    {
        self.size = end - (self.addr + SEGMENT_HEADER_SIZE);
    }
}

/// Where the header of a block of `size` bytes aligned to `align` goes when it is
/// carved from the end of `seg`: the block ends where the segment ends, moved down
/// to the alignment; `None` where the header would start before the segment's free
/// bytes.
pub open spec fn header_for(seg: FreeSegment, size: int, align: int) -> Option<int> {
    let p = seg.end() - size;
    let h = p - p % align - SEGMENT_HEADER_SIZE;
    if p < 0 || h < seg.start() {
        None
    } else {
        Some(h)
    }
}

/// The header address for a block of `size` bytes aligned to `align` at the end of
/// `segment`, if the segment can hold it.
fn find_header_for_allocation(segment: &FreeSegment, size: usize, align: usize) -> (r: Option<
    usize,
>)
    requires
        align > 0,
        segment.end() <= usize::MAX,
    ensures
        r matches Some(h) ==> header_for(*segment, size as int, align as int) == Some(h as int),
        r is None ==> header_for(*segment, size as int, align as int) is None,
{
    let segment_start = segment.get_start();
    let segment_end = segment.get_end();
    if size > segment_end {
        return None;
    }
    let mut ptr = segment_end - size;
    let rem = ptr % align;
    assert(rem <= ptr) by (nonlinear_arith)
        requires
            rem == ptr % align,
            align > 0,
    ;
    ptr = ptr - rem;
    if ptr < SEGMENT_HEADER_SIZE {
        return None;
    }
    ptr = ptr - SEGMENT_HEADER_SIZE;
    if ptr < segment_start {
        return None;
    }
    Some(ptr)
}

/// Index of the first segment of `s`, from `i` on, that can hold a block of `size`
/// bytes aligned to `align`.
pub open spec fn first_fit_from(s: Seq<FreeSegment>, i: int, size: int, align: int) -> Option<
    int,
>
    decreases s.len() - i,
{
    if i < 0 || i >= s.len() {
        None
    } else if header_for(s[i], size, align) is Some {
        Some(i)
    } else {
        first_fit_from(s, i + 1, size, align)
    }
}

/// Index of the first segment of `s` that can hold a block of `size` bytes aligned to
/// `align`.
pub open spec fn first_fit(s: Seq<FreeSegment>, size: int, align: int) -> Option<int> {
    first_fit_from(s, 0, size, align)
}

/// What an allocation does to the free list `s`: the index of the segment it is carved
/// from, that segment shrunk to end at the new header, and the block handed out,
/// which reaches to where the segment ended. `None` where no segment can hold it.
pub open spec fn alloc_effect(s: Seq<FreeSegment>, size: int, align: int) -> Option<
    (int, FreeSegment, UsedSegment),
> {
    match first_fit(s, size, align) {
        None => None,
        Some(k) => match header_for(s[k], size, align) {
            None => None,
            Some(h) => Some(
                (
                    k,
                    FreeSegment { addr: s[k].addr, size: (h - s[k].start()) as usize },
                    UsedSegment {
                        addr: h as usize,
                        size: (s[k].end() - (h + SEGMENT_HEADER_SIZE)) as usize,
                    },
                ),
            ),
        },
    }
}

/// The free list `s` with `seg` put back after the segment at `i`: merged with the
/// next segment when it ends where that one starts, and with the segment at `i` when
/// that one ends where it starts. The segment that results runs from `lo` to `hi` and
/// takes the place of the segments it swallowed.
pub open spec fn released_at(s: Seq<FreeSegment>, i: int, seg: FreeSegment) -> Seq<
    FreeSegment,
> {
    let merge_prev = s[i].end() == seg.addr;
    let merge_next = i + 1 < s.len() && seg.end() == s[i + 1].addr;
    let first = if merge_prev {
        i
    } else {
        i + 1
    };
    let after = if merge_next {
        i + 2
    } else {
        i + 1
    };
    let lo = if merge_prev {
        s[i].addr as int
    } else {
        seg.addr as int
    };
    let hi = if merge_next {
        s[i + 1].end()
    } else {
        seg.end()
    };
    s.subrange(0, first).push(
        FreeSegment { addr: lo as usize, size: (hi - lo - SEGMENT_HEADER_SIZE) as usize },
    ) + s.subrange(after, s.len() as int)
}

/// Whether `i` is where a segment with its header at `a` goes back into `s`: the
/// last segment that starts before `a`.
pub open spec fn is_insert_index(s: Seq<FreeSegment>, i: int, a: int) -> bool {
    &&& 0 <= i < s.len()
    &&& s[i].addr < a
    &&& (i + 1 == s.len() || a < s[i + 1].addr)
}

/// The free list `s` after the block `u` is freed.
pub open spec fn free_after_release(s: Seq<FreeSegment>, u: UsedSegment) -> Seq<FreeSegment> {
    let i = choose|i: int| is_insert_index(s, i, u.addr as int);
    released_at(s, i, FreeSegment { addr: u.addr, size: u.size })
}

/// Whether the free segments `s` lie in address order with a gap between any two and
/// all of their bytes addressable.
pub open spec fn free_list_ok(s: Seq<FreeSegment>) -> bool {
    &&& forall|i: int| 0 <= i < s.len() ==> #[trigger] s[i].end() <= usize::MAX
    &&& forall|i: int, j: int| 0 <= i < j < s.len() ==> #[trigger] s[i].end() < #[trigger] s[j].addr
}

/// Whether the blocks `used` and the free segments `free` never overlap, one block
/// never overlaps another, and every block lies after the end of the first free
/// segment, which is therefore there whenever a block is out.
pub open spec fn segments_ok(free: Seq<FreeSegment>, used: Seq<UsedSegment>) -> bool {
    &&& free_list_ok(free)
    &&& forall|u: int| 0 <= u < used.len() ==> #[trigger] used[u].end() <= usize::MAX
    &&& forall|u: int, f: int|
        0 <= u < used.len() && 0 <= f < free.len() ==> #[trigger] used[u].end() <= #[trigger] free[
            f
        ].addr || free[f].end() <= used[u].addr
    &&& forall|u: int, v: int|
        0 <= u < v < used.len() ==> #[trigger] used[u].end() <= #[trigger] used[v].addr
            || used[v].end() <= used[u].addr
    &&& used.len() > 0 ==> free.len() > 0
    &&& forall|u: int| 0 <= u < used.len() ==> free[0].end() <= #[trigger] used[u].addr
}

/// The heap: the free segments in address order and the blocks handed out.
pub struct Allocator {
    free: Vec<FreeSegment>,
    used: Vec<UsedSegment>,
}

impl Allocator {
    /// The free segments, in address order.
    pub closed spec fn free_segments(&self) -> Seq<FreeSegment> {
        self.free@
    }

    /// The blocks handed out, oldest first.
    pub closed spec fn used_segments(&self) -> Seq<UsedSegment> {
        self.used@
    }

    /// Whether the segments are consistent.
    pub open spec fn wf(&self) -> bool {
        segments_ok(self.free_segments(), self.used_segments())
    }

    /// The free segments, in address order.
    pub fn free_list(&self) -> (r: Vec<FreeSegment>)
        ensures
            r@ == self.free_segments(),
    {
        self.free.clone()
    }

    /// A heap with no memory yet.
    pub fn new() -> (r: Allocator)
        ensures
            r.wf(),
            r.free_segments().len() == 0,
            r.used_segments().len() == 0,
    {
        Allocator { free: Vec::new(), used: Vec::new() }
    }

    /// Gives the heap the memory after the kernel image: the region the firmware
    /// reports at `kernel_start`, less the image, which ends at `kernel_end`, and less
    /// one header.
    pub fn init(&mut self, mmap: &[MemoryMapEntry], kernel_start: usize, kernel_end: usize)
        requires
            old(self).used_segments().len() == 0,
            kernel_start <= kernel_end,
            exists|i: int| 0 <= i < mmap@.len() && #[trigger] mmap@[i].addr == kernel_start,
            forall|i: int|
                0 <= i < mmap@.len() && #[trigger] mmap@[i].addr == kernel_start ==> (
                mmap@[i].len as usize) >= kernel_end - kernel_start + SEGMENT_HEADER_SIZE
                    && kernel_end + (mmap@[i].len as usize) - (kernel_end - kernel_start)
                    <= usize::MAX,
        ensures
            final(self).wf(),
            final(self).used_segments().len() == 0,
            exists|i: int|
                0 <= i < mmap@.len() && mmap@[i].addr == kernel_start && (forall|j: int|
                    0 <= j < i ==> mmap@[j].addr != kernel_start) && final(self).free_segments()
                    == seq![
                    FreeSegment {
                        addr: kernel_end,
                        size: ((mmap@[i].len as usize) - (kernel_end - kernel_start)
                            - SEGMENT_HEADER_SIZE) as usize,
                    },
                ],
    {
        let mut i: usize = 0;
        while i < mmap.len()
            invariant
                i <= mmap@.len(),
                forall|j: int| 0 <= j < i ==> mmap@[j].addr != kernel_start,
                exists|j: int| 0 <= j < mmap@.len() && #[trigger] mmap@[j].addr == kernel_start,
            ensures
                i < mmap@.len(),
                mmap@[i as int].addr == kernel_start,
                forall|j: int| 0 <= j < i ==> mmap@[j].addr != kernel_start,
            decreases mmap@.len() - i,
        {
            if mmap[i].addr == kernel_start as u64 {
                break;
            }
            i += 1;
        }
        let len = mmap[i].len as usize;
        let reserved = kernel_end - kernel_start;
        let segment_size = len - reserved - SEGMENT_HEADER_SIZE;
        let mut free = Vec::new();
        free.push(FreeSegment { addr: kernel_end, size: segment_size });
        self.free = free;
    }

    /// Hands out a block of `size` bytes aligned to `align`, carved from the end of
    /// the first free segment that can hold it, and returns the block's address;
    /// `None` when no free segment can.
    pub fn allocate(&mut self, size: usize, align: usize) -> (r: Option<usize>)
        requires
            old(self).wf(),
            align > 0,
        ensures
            final(self).wf(),
            match alloc_effect(old(self).free_segments(), size as int, align as int) {
                None => {
                    &&& r is None
                    &&& final(self).free_segments() == old(self).free_segments()
                    &&& final(self).used_segments() == old(self).used_segments()
                },
                Some((k, shrunk, block)) => {
                    &&& r matches Some(p) && p == block.start()
                    &&& final(self).free_segments() == old(self).free_segments().update(k, shrunk)
                    &&& final(self).used_segments() == old(self).used_segments().push(block)
                },
            },
    {
        let mut k: usize = 0;
        while k < self.free.len()
            invariant
                k <= self.free@.len(),
                old(self).wf(),
                align > 0,
                self.free@ == old(self).free@,
                self.used@ == old(self).used@,
                first_fit(self.free@, size as int, align as int) == first_fit_from(
                    self.free@,
                    k as int,
                    size as int,
                    align as int,
                ),
            decreases self.free@.len() - k,
        {
            let segment = self.free[k];
            match find_header_for_allocation(&segment, size, align) {
                None => {
                    k += 1;
                },
                Some(header) => {
                    let used_end = segment.get_end();
                    let mut shrunk = segment;
                    shrunk.set_end(header);
                    let mut block = UsedSegment { addr: header, size: 0 };
                    block.set_end(used_end);
                    self.free.set(k, shrunk);
                    self.used.push(block);
                    proof {
                        Self::lemma_alloc_keeps_ok(
                            old(self).free@,
                            old(self).used@,
                            self.free@,
                            self.used@,
                            k as int,
                        );
                    }
                    return Some(block.get_start());
                },
            }
        }
        None
    }

    /// Whether `ptr` is the start of a block handed out and not taken back yet, which
    /// is what [`Allocator::dealloc`] takes.
    pub fn owns(&self, ptr: usize) -> (r: bool)
        ensures
            r == exists|u: int|
                0 <= u < self.used_segments().len() && #[trigger] self.used_segments()[u].start()
                    == ptr,
    {
        if ptr < SEGMENT_HEADER_SIZE {
            return false;
        }
        let header = ptr - SEGMENT_HEADER_SIZE;
        let mut u: usize = 0;
        while u < self.used.len()
            invariant
                u <= self.used@.len(),
                header + SEGMENT_HEADER_SIZE == ptr,
                forall|w: int| 0 <= w < u ==> #[trigger] self.used@[w].start() != ptr,
            decreases self.used@.len() - u,
        {
            if self.used[u].addr == header {
                assert(self.used_segments()[u as int].start() == ptr);
                return true;
            }
            u += 1;
        }
        false
    }

    /// Takes back the block at `ptr` and puts its segment back into the free list,
    /// merged with the free neighbours it touches.
    pub fn dealloc(&mut self, ptr: usize)
        requires
            old(self).wf(),
            exists|u: int|
                0 <= u < old(self).used_segments().len() && #[trigger] old(
                    self,
                ).used_segments()[u].start() == ptr,
        ensures
            final(self).wf(),
            exists|u: int|
                0 <= u < old(self).used_segments().len() && old(self).used_segments()[u].start()
                    == ptr && final(self).used_segments() == old(self).used_segments().remove(u)
                    && final(self).free_segments() == free_after_release(
                    old(self).free_segments(),
                    old(self).used_segments()[u],
                ),
    {
        let header = get_header_ptr_from_allocated(ptr);
        let mut u: usize = 0;
        while u < self.used.len()
            invariant
                u <= self.used@.len(),
                self.used@ == old(self).used@,
                self.free@ == old(self).free@,
                header + SEGMENT_HEADER_SIZE == ptr,
                forall|w: int| 0 <= w < u ==> self.used@[w].addr != header,
                exists|w: int| 0 <= w < self.used@.len() && #[trigger] self.used@[w].start() == ptr,
            ensures
                u < self.used@.len(),
                self.used@[u as int].addr == header,
            decreases self.used@.len() - u,
        {
            if self.used[u].addr == header {
                break;
            }
            u += 1;
        }
        let block = self.used.remove(u);
        proof {
            let free = old(self).free@;
            let used = old(self).used@;
            assert(used[u as int].end() <= usize::MAX);
            assert(free[0].end() <= used[u as int].addr);
            assert forall|f: int| 0 <= f < free.len() implies block.end() <= #[trigger] free[f].addr
                || free[f].end() <= block.addr by {
                assert(used[u as int].end() <= free[f].addr || free[f].end() <= used[u as int].addr);
            }
        }
        convert_used_to_free_segment(&mut self.free, block);
        proof {
            let free = old(self).free@;
            let used = old(self).used@;
            let seg = FreeSegment { addr: block.addr, size: block.size };
            let i = choose|i: int|
                is_insert_index(free, i, block.addr as int) && self.free@ == released_at(
                    free,
                    i,
                    seg,
                );
            let j = choose|j: int| is_insert_index(free, j, block.addr as int);
            lemma_insert_index_unique(free, i, j, block.addr as int);
            lemma_release_keeps_ok(free, used, u as int, i);
        }
    }

    proof fn lemma_alloc_keeps_ok(
        free: Seq<FreeSegment>,
        used: Seq<UsedSegment>,
        nf: Seq<FreeSegment>,
        nu: Seq<UsedSegment>,
        k: int,
    )
        requires
            segments_ok(free, used),
            0 <= k < free.len(),
            nf.len() == free.len(),
            nu.len() == used.len() + 1,
            forall|i: int| 0 <= i < free.len() && i != k ==> nf[i] == free[i],
            forall|u: int| 0 <= u < used.len() ==> nu[u] == used[u],
            nf[k].addr == free[k].addr,
            nf[k].end() == nu[used.len() as int].addr,
            free[k].start() <= nu[used.len() as int].addr,
            nu[used.len() as int].end() == free[k].end(),
        ensures
            segments_ok(nf, nu),
    {
        let b = used.len() as int;
        assert forall|i: int| 0 <= i < nf.len() implies #[trigger] nf[i].end() <= usize::MAX by {
            assert(free[i].end() <= usize::MAX);
        }
        assert forall|u: int| 0 <= u < nu.len() implies #[trigger] nu[u].end() <= usize::MAX by {
            if u < b {
                assert(used[u].end() <= usize::MAX);
            } else {
                assert(free[k].end() <= usize::MAX);
            }
        }
        assert forall|i: int, j: int| 0 <= i < j < nf.len() implies #[trigger] nf[i].end()
            < #[trigger] nf[j].addr by {
            assert(free[i].end() < free[j].addr);
        }
        assert forall|u: int, f: int| 0 <= u < nu.len() && 0 <= f < nf.len() implies #[trigger] nu[
            u
        ].end() <= #[trigger] nf[f].addr || nf[f].end() <= nu[u].addr by {
            if u < b {
                assert(used[u].end() <= free[f].addr || free[f].end() <= used[u].addr);
                assert(used[u].end() <= free[k].addr || free[k].end() <= used[u].addr);
            } else if f < k {
                assert(free[f].end() < free[k].addr);
            } else if f > k {
                assert(free[k].end() < free[f].addr);
            }
        }
        assert forall|u: int, v: int| 0 <= u < v < nu.len() implies #[trigger] nu[u].end()
            <= #[trigger] nu[v].addr || nu[v].end() <= nu[u].addr by {
            if v < b {
                assert(used[u].end() <= used[v].addr || used[v].end() <= used[u].addr);
            } else {
                assert(used[u].end() <= free[k].addr || free[k].end() <= used[u].addr);
            }
        }
        assert forall|u: int| 0 <= u < nu.len() implies nf[0].end() <= #[trigger] nu[u].addr by {
            if u < b {
                assert(free[0].end() <= used[u].addr);
            } else if k > 0 {
                assert(free[0].end() < free[k].addr);
            }
        }
    }
}

/// Merges the free segment at `a` with the next one when it ends where the next one
/// starts.
fn merge_if_adjacent(free: &mut Vec<FreeSegment>, a: usize)
    requires
        a < old(free)@.len(),
        forall|i: int| 0 <= i < old(free)@.len() ==> #[trigger] old(free)@[i].end() <= usize::MAX,
    ensures
        if a + 1 < old(free)@.len() && old(free)@[a as int].end() == old(free)@[a + 1].addr {
            final(free)@ == old(free)@.subrange(0, a as int).push(
                FreeSegment {
                    addr: old(free)@[a as int].addr,
                    size: (old(free)@[a + 1].end() - old(free)@[a as int].start()) as usize,
                },
            ) + old(free)@.subrange(a + 2, old(free)@.len() as int)
        } else {
            final(free)@ == old(free)@
        },
{
    let n = free.len();
    if a + 1 < n {
        let first = free[a];
        let second = free[a + 1];
        if first.get_end() == second.addr {
            let mut merged = first;
            merged.set_end(second.get_end());
            free.set(a, merged);
            free.remove(a + 1);
            assert(free@ =~= old(free)@.subrange(0, a as int).push(merged) + old(free)@.subrange(
                a + 2,
                old(free)@.len() as int,
            ));
        }
    }
}

/// Links `new_segment` in after the free segment at `item` and merges it with the
/// neighbours it touches.
fn insert_segment_after(free: &mut Vec<FreeSegment>, item: usize, new_segment: FreeSegment)
    requires
        item < old(free)@.len(),
        new_segment.end() <= usize::MAX,
        old(free)@[item as int].end() <= new_segment.addr,
        forall|i: int| 0 <= i < old(free)@.len() ==> #[trigger] old(free)@[i].end() <= usize::MAX,
    ensures
        final(free)@ == released_at(old(free)@, item as int, new_segment),
{
    let ghost s = free@;
    let n = free.len();  // bounds the length by usize::MAX for what follows
    free.insert(item + 1, new_segment);
    let ghost t1 = free@;
    merge_if_adjacent(free, item + 1);
    let ghost t2 = free@;
    assert(forall|i: int| 0 <= i < t2.len() ==> #[trigger] t2[i].end() <= usize::MAX);
    merge_if_adjacent(free, item);

}

/// Puts `new_segment` back into the address ordered free list, after the last segment
/// that starts before it.
fn insert_segment_into_list(free: &mut Vec<FreeSegment>, new_segment: FreeSegment)
    requires
        free_list_ok(old(free)@),
        old(free)@.len() > 0,
        old(free)@[0].end() <= new_segment.addr,
        new_segment.end() <= usize::MAX,
        forall|f: int|
            0 <= f < old(free)@.len() ==> new_segment.end() <= #[trigger] old(free)@[f].addr
                || old(free)@[f].end() <= new_segment.addr,
    ensures
        exists|i: int|
            is_insert_index(old(free)@, i, new_segment.addr as int) && final(free)@ == released_at(
                old(free)@,
                i,
                new_segment,
            ),
{
    let n = free.len();
    let mut it: usize = 0;
    loop
        invariant
            n == free@.len(),
            free@ == old(free)@,
            it < n,
            free@[it as int].addr < new_segment.addr,
            free_list_ok(old(free)@),
            new_segment.end() <= usize::MAX,
            forall|f: int|
                0 <= f < old(free)@.len() ==> new_segment.end() <= #[trigger] old(free)@[f].addr
                    || old(free)@[f].end() <= new_segment.addr,
        decreases n - it,
    {
        let should_insert = it + 1 == n || free[it + 1].addr > new_segment.addr;
        if should_insert {
            proof {
                assert(is_insert_index(old(free)@, it as int, new_segment.addr as int));
                assert(new_segment.end() <= free@[it as int].addr || free@[it as int].end()
                    <= new_segment.addr);
            }
            insert_segment_after(free, it, new_segment);
            return;
        }
        proof {
            let f = it + 1;
            assert(new_segment.end() <= free@[f].addr || free@[f].end() <= new_segment.addr);
        }
        it += 1;
    }
}

/// Turns the block `used` back into a free segment and puts it into the free list.
fn convert_used_to_free_segment(free: &mut Vec<FreeSegment>, used: UsedSegment)
    requires
        free_list_ok(old(free)@),
        old(free)@.len() > 0,
        old(free)@[0].end() <= used.addr,
        used.end() <= usize::MAX,
        forall|f: int|
            0 <= f < old(free)@.len() ==> used.end() <= #[trigger] old(free)@[f].addr || old(
                free,
            )@[f].end() <= used.addr,
    ensures
        exists|i: int|
            is_insert_index(old(free)@, i, used.addr as int) && final(free)@ == released_at(
                old(free)@,
                i,
                FreeSegment { addr: used.addr, size: used.size },
            ),
{
    let segment = FreeSegment { addr: used.addr, size: used.size };
    insert_segment_into_list(free, segment);
}

/// Address of the header of the block at `ptr`.
fn get_header_ptr_from_allocated(ptr: usize) -> (r: usize)
    requires
        ptr >= SEGMENT_HEADER_SIZE,
    ensures
        r == ptr - SEGMENT_HEADER_SIZE,
{
    ptr - SEGMENT_HEADER_SIZE
}

/// Only one place in an address ordered free list fits an address.
proof fn lemma_insert_index_unique(s: Seq<FreeSegment>, i: int, j: int, a: int)
    requires
        free_list_ok(s),
        is_insert_index(s, i, a),
        is_insert_index(s, j, a),
    ensures
        i == j,
{
    if i + 1 < j {
        assert(s[i + 1].end() < s[j].addr);
    } else if j + 1 < i {
        assert(s[j + 1].end() < s[i].addr);
    }
}

/// The segments of `released_at(s, i, seg)`, by index: those before the merged one are
/// those of `s`, then comes the merged one, then the rest of `s`.
proof fn lemma_released_shape(s: Seq<FreeSegment>, i: int, seg: FreeSegment)
    requires
        0 <= i < s.len(),
        s[i].end() <= seg.addr,
        i + 1 < s.len() ==> seg.end() <= s[i + 1].addr,
        seg.end() <= usize::MAX,
        free_list_ok(s),
    ensures
        ({
            let r = released_at(s, i, seg);
            let first = if s[i].end() == seg.addr {
                i
            } else {
                i + 1
            };
            let after = if i + 1 < s.len() && seg.end() == s[i + 1].addr {
                i + 2
            } else {
                i + 1
            };
            let lo = if s[i].end() == seg.addr {
                s[i].addr as int
            } else {
                seg.addr as int
            };
            let hi = if i + 1 < s.len() && seg.end() == s[i + 1].addr {
                s[i + 1].end()
            } else {
                seg.end()
            };
            &&& r.len() == first + 1 + s.len() - after
            &&& forall|j: int| 0 <= j < first ==> #[trigger] r[j] == s[j]
            &&& r[first].addr == lo
            &&& r[first].end() == hi
            &&& forall|j: int| first < j < r.len() ==> #[trigger] r[j] == s[j - first - 1 + after]
            &&& lo <= s[i].addr || lo == seg.addr
            &&& lo <= seg.addr
            &&& seg.end() <= hi <= usize::MAX
        }),
{
}

/// Freeing a block keeps the segments consistent.
proof fn lemma_release_keeps_ok(free: Seq<FreeSegment>, used: Seq<UsedSegment>, u: int, i: int)
    requires
        segments_ok(free, used),
        0 <= u < used.len(),
        is_insert_index(free, i, used[u].addr as int),
    ensures
        segments_ok(
            released_at(free, i, FreeSegment { addr: used[u].addr, size: used[u].size }),
            used.remove(u),
        ),
{
    let s = free;
    let seg = FreeSegment { addr: used[u].addr, size: used[u].size };
    assert(used[u].end() <= s[i].addr || s[i].end() <= used[u].addr);
    if i + 1 < s.len() {
        assert(used[u].end() <= s[i + 1].addr || s[i + 1].end() <= used[u].addr);
    }
    assert(used[u].end() <= usize::MAX);
    lemma_released_shape(s, i, seg);
    let r = released_at(s, i, seg);
    let nu = used.remove(u);
    let mp = s[i].end() == seg.addr;
    let mn = i + 1 < s.len() && seg.end() == s[i + 1].addr;
    let first = if mp {
        i
    } else {
        i + 1
    };
    let after = if mn {
        i + 2
    } else {
        i + 1
    };
    assert forall|j: int| 0 <= j < r.len() implies #[trigger] r[j].end() <= usize::MAX by {
        if j < first {
        } else if j > first {
            assert(s[j - first - 1 + after].end() <= usize::MAX);
        }
    }
    assert forall|j: int, k: int| 0 <= j < k < r.len() implies #[trigger] r[j].end()
        < #[trigger] r[k].addr by {
        if k < first {
            assert(s[j].end() < s[k].addr);
        } else if k == first {
            if j < i {
                assert(s[j].end() < s[i].addr);
            }
        } else {
            let k2 = k - first - 1 + after;
            if j < first {
                assert(s[j].end() < s[k2].addr);
            } else if j == first {
                if mn {
                    if k2 > i + 1 {
                        assert(s[i + 1].end() < s[k2].addr);
                    }
                } else if k2 > i + 1 {
                    assert(s[i + 1].end() < s[k2].addr);
                }
            } else {
                let j2 = j - first - 1 + after;
                assert(s[j2].end() < s[k2].addr);
            }
        }
    }
    assert forall|w: int| 0 <= w < nu.len() implies #[trigger] nu[w].end() <= usize::MAX by {
        if w < u {
            assert(used[w].end() <= usize::MAX);
        } else {
            assert(used[w + 1].end() <= usize::MAX);
        }
    }
    assert forall|w: int, f: int| 0 <= w < nu.len() && 0 <= f < r.len() implies #[trigger] nu[
        w
    ].end() <= #[trigger] r[f].addr || r[f].end() <= nu[w].addr by {
        let w2 = if w < u {
            w
        } else {
            w + 1
        };
        assert(nu[w] == used[w2]);
        if f < first {
            assert(used[w2].end() <= s[f].addr || s[f].end() <= used[w2].addr);
        } else if f > first {
            let f2 = f - first - 1 + after;
            assert(used[w2].end() <= s[f2].addr || s[f2].end() <= used[w2].addr);
        } else {
            assert(used[w2].end() <= used[u].addr || used[u].end() <= used[w2].addr);
            assert(used[w2].end() <= s[i].addr || s[i].end() <= used[w2].addr);
            if i + 1 < s.len() {
                assert(used[w2].end() <= s[i + 1].addr || s[i + 1].end() <= used[w2].addr);
            }
        }
    }
    assert forall|w: int, v: int| 0 <= w < v < nu.len() implies #[trigger] nu[w].end()
        <= #[trigger] nu[v].addr || nu[v].end() <= nu[w].addr by {
        let w2 = if w < u {
            w
        } else {
            w + 1
        };
        let v2 = if v < u {
            v
        } else {
            v + 1
        };
        assert(used[w2].end() <= used[v2].addr || used[v2].end() <= used[w2].addr);
    }
    assert forall|w: int| 0 <= w < nu.len() implies r[0].end() <= #[trigger] nu[w].addr by {
        let w2 = if w < u {
            w
        } else {
            w + 1
        };
        assert(nu[w] == used[w2]);
        assert(s[0].end() <= used[w2].addr);
        if first == 0 {
            assert(used[w2].end() <= used[u].addr || used[u].end() <= used[w2].addr);
            assert(used[w2].end() <= s[0].addr || s[0].end() <= used[w2].addr);
            if i + 1 < s.len() {
                assert(used[w2].end() <= s[1].addr || s[1].end() <= used[w2].addr);
            }
        }
    }
}

proof fn lemma_first_fit_from(s: Seq<FreeSegment>, i: int, size: int, align: int)
    requires
        0 <= i,
    ensures
        first_fit_from(s, i, size, align) matches Some(k) ==> i <= k < s.len() && header_for(
            s[k],
            size,
            align,
        ) is Some,
    decreases s.len() - i,
{
    if i < s.len() && header_for(s[i], size, align) is None {
        lemma_first_fit_from(s, i + 1, size, align);
    }
}

/// Freeing the block an allocation handed out gives back the free list as it was
/// before the allocation, and the list of blocks handed out as it was.
pub proof fn law_dealloc_undoes_alloc(
    free: Seq<FreeSegment>,
    used: Seq<UsedSegment>,
    size: usize,
    align: usize,
)
    requires
        segments_ok(free, used),
        align > 0,
    ensures
        alloc_effect(free, size as int, align as int) matches Some((k, shrunk, block)) ==> {
            &&& free_after_release(free.update(k, shrunk), block) == free
            &&& used.push(block).remove(used.len() as int) == used
        },
{
    lemma_first_fit_from(free, 0, size as int, align as int);
    if let Some((k, shrunk, block)) = alloc_effect(free, size as int, align as int) {
        let f1 = free.update(k, shrunk);
        let a = block.addr as int;
        if k + 1 < free.len() {
            assert(free[k].end() < free[k + 1].addr);
        }
        assert(is_insert_index(f1, k, a));
        assert(free_list_ok(f1)) by {
            assert forall|i: int, j: int| 0 <= i < j < f1.len() implies #[trigger] f1[i].end()
                < #[trigger] f1[j].addr by {
                assert(free[i].end() < free[j].addr);
            }
        }
        let j = choose|j: int| is_insert_index(f1, j, a);
        lemma_insert_index_unique(f1, k, j, a);
        let seg = FreeSegment { addr: block.addr, size: block.size };
        lemma_released_shape(f1, k, seg);
        assert(released_at(f1, k, seg) =~= free);
        assert(used.push(block).remove(used.len() as int) =~= used);
    }
}

/// An allocation followed by freeing the pointer it returned leaves the heap as it
/// was: the free list and the blocks handed out are those from before the allocation.
/// `a0` is the heap before [`Allocator::allocate`], `a1` after it (it returned `p`),
/// and `a2` after [`Allocator::dealloc`] of `p`; the requires are those two calls'
/// ensures.
pub proof fn law_alloc_then_dealloc_restores(
    a0: Allocator,
    a1: Allocator,
    a2: Allocator,
    size: usize,
    align: usize,
    p: usize,
)
    requires
        a0.wf(),
        align > 0,
        alloc_effect(a0.free_segments(), size as int, align as int) matches Some((k, shrunk, block))
            && p == block.start() && a1.free_segments() == a0.free_segments().update(k, shrunk)
            && a1.used_segments() == a0.used_segments().push(block),
        a1.wf(),
        exists|u: int|
            0 <= u < a1.used_segments().len() && a1.used_segments()[u].start() == p
                && a2.used_segments() == a1.used_segments().remove(u) && a2.free_segments()
                == free_after_release(a1.free_segments(), a1.used_segments()[u]),
    ensures
        a2.free_segments() == a0.free_segments(),
        a2.used_segments() == a0.used_segments(),
{
    law_dealloc_undoes_alloc(a0.free_segments(), a0.used_segments(), size, align);
    let used = a1.used_segments();
    let last = a0.used_segments().len() as int;
    let u = choose|u: int|
        0 <= u < used.len() && used[u].start() == p && a2.used_segments() == used.remove(u)
            && a2.free_segments() == free_after_release(a1.free_segments(), used[u]);
    if u != last {
        if u < last {
            assert(used[u].end() <= used[last].addr || used[last].end() <= used[u].addr);
        } else {
            assert(used[last].end() <= used[u].addr || used[u].end() <= used[last].addr);
        }
    }
}

/// An allocation hands out a block that starts at a multiple of `align`, holds at
/// least `size` bytes, and takes the end of the segment it is carved from, whose
/// remainder ends where the block's header starts.
pub proof fn law_allocated_block_fits(free: Seq<FreeSegment>, size: usize, align: usize)
    requires
        free_list_ok(free),
        align > 0,
    ensures
        alloc_effect(free, size as int, align as int) matches Some((k, shrunk, block)) ==> {
            &&& 0 <= k < free.len()
            &&& block.start() % (align as int) == 0
            &&& block.size >= size
            &&& free[k].start() <= block.addr
            &&& block.end() == free[k].end()
            &&& shrunk.addr == free[k].addr
            &&& shrunk.end() == block.addr
        },
{
    lemma_first_fit_from(free, 0, size as int, align as int);
    if let Some((k, shrunk, block)) = alloc_effect(free, size as int, align as int) {
        let p = free[k].end() - size;
        let q = p - p % (align as int);
        assert(q % (align as int) == 0 && p % (align as int) >= 0) by (nonlinear_arith)
            requires
                q == p - p % (align as int),
                align > 0,
        {
            vstd::arithmetic::div_mod::lemma_fundamental_div_mod(p, align as int);
            vstd::arithmetic::div_mod::lemma_mod_multiples_basic(p / (align as int), align as int);
        }
        assert(free[k].end() <= usize::MAX);
        assert(block.start() == q);
    }
}

} // verus!

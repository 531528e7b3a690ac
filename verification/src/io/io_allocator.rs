//! Handing out ranges of I/O ports, each at most once.
use vstd::prelude::*;

use core::ops::RangeInclusive;

verus! {

/// `RangeInclusive::start` gives the lower bound the range was made with.
pub assume_specification<Idx>[ RangeInclusive::<Idx>::start ](r: &RangeInclusive<Idx>) -> (ret:
    &Idx)
    ensures
        *ret == r@.start,
;

/// `RangeInclusive::end` gives the upper bound the range was made with.
pub assume_specification<Idx>[ RangeInclusive::<Idx>::end ](r: &RangeInclusive<Idx>) -> (ret:
    &Idx)
    ensures
        *ret == r@.end,
;

/// The overlap test of the allocator: an end point of `start..=end` lies in
/// `new_start..=new_end`.
pub open spec fn overlap_bounds(start: u16, end: u16, new_start: u16, new_end: u16) -> bool {
    (start >= new_start && start <= new_end) || (end >= new_start && end <= new_end)
}

/// The overlap test of the allocator on ranges.
pub open spec fn overlap(range: RangeInclusive<u16>, new_range: RangeInclusive<u16>) -> bool {
    overlap_bounds(range@.start, range@.end, new_range@.start, new_range@.end)
}

/// Whether an end point of `range` lies in `new_range`. A range that holds
/// `new_range` strictly inside it does not count.
pub fn ranges_overlap(range: &RangeInclusive<u16>, new_range: &RangeInclusive<u16>) -> (r: bool)
    ensures
        r == overlap(*range, *new_range),
{
    (*range.start() >= *new_range.start() && *range.start() <= *new_range.end()) || (*range.end()
        >= *new_range.start() && *range.end() <= *new_range.end())
}

/// Whether a request for `length` ports from `addr` is granted after `ranges` were
/// handed out: no end point of one of them lies among the requested ports.
pub open spec fn request_granted(ranges: Seq<RangeInclusive<u16>>, addr: u16, length: u16) -> bool {
    !exists|i: int|
        0 <= i < ranges.len() && overlap_bounds(
            #[trigger] ranges[i]@.start,
            ranges[i]@.end,
            addr,
            (addr + length - 1) as u16,
        )
}

/// Whether `new` is `old` with the range `addr..=addr + length - 1` added at the end.
pub open spec fn range_pushed(
    old: Seq<RangeInclusive<u16>>,
    new: Seq<RangeInclusive<u16>>,
    addr: u16,
    length: u16,
) -> bool {
    &&& new.len() == old.len() + 1
    &&& new.drop_last() == old
    &&& new.last()@.start == addr
    &&& new.last()@.end == addr + length - 1
}

/// A range of ports is handed out at most once: once `addr..=addr + length - 1` is
/// among the ranges handed out, a request for the same ports is refused. (An empty
/// request, of length zero, holds no end point and is not refused.)
pub proof fn law_range_handed_out_once(
    ranges: Seq<RangeInclusive<u16>>,
    i: int,
    addr: u16,
    length: u16,
)
    requires
        1 <= length,
        addr + length <= 0xffff,
        0 <= i < ranges.len(),
        ranges[i]@.start == addr,
        ranges[i]@.end == addr + length - 1,
    ensures
        !request_granted(ranges, addr, length),
{
    assert(overlap_bounds(ranges[i]@.start, ranges[i]@.end, addr, (addr + length - 1) as u16));
}

/// Whether some range of `allocated_ranges` overlaps `new_range`.
pub fn range_already_allocated(
    allocated_ranges: &[RangeInclusive<u16>],
    new_range: &RangeInclusive<u16>,
) -> (r: bool)
    ensures
        r == exists|i: int|
            0 <= i < allocated_ranges@.len() && overlap(
                #[trigger] allocated_ranges@[i],
                *new_range,
            ),
{
    let mut i: usize = 0;
    while i < allocated_ranges.len()
        invariant
            i <= allocated_ranges@.len(),
            forall|j: int| 0 <= j < i ==> !overlap(#[trigger] allocated_ranges@[j], *new_range),
        decreases allocated_ranges@.len() - i,
    {
        if ranges_overlap(&allocated_ranges[i], new_range) {
            return true;
        }
        i += 1;
    }

    false
}

/// Offset into an I/O range.
#[derive(Clone, Copy)]
pub struct IoOffset(pub u16);

impl IoOffset {
    /// The offset `val`.
    pub fn new(val: u16) -> (r: IoOffset)
        ensures
            r.0 == val,
    {
        IoOffset(val)
    }
}

/// An access reached past the end of its range.
#[derive(PartialEq, Eq, Structural)]
pub struct OffsetOutOfRange {
    pub value: u16,
    pub num_bytes: u16,
    pub length: u16,
}

/// Ports `addr..addr + length`, handed out by an [`IoAllocator`].
pub struct IoRange {
    addr: u16,
    length: u16,
}

impl IoRange {
    /// First port of the range.
    pub closed spec fn start(&self) -> u16 {
        self.addr
    }

    /// Number of ports of the range.
    pub closed spec fn len(&self) -> u16 {
        self.length
    }

    /// Every port of the range fits in 16 bits.
    pub open spec fn wf(&self) -> bool {
        self.start() + self.len() <= 0xffff
    }

    /// Checks that `num_bytes` bytes at `offset` lie inside the range.
    pub fn verify_offset(&self, offset: IoOffset, num_bytes: u16) -> (r: Result<
        (),
        OffsetOutOfRange,
    >)
        requires
            offset.0 + num_bytes <= 0xffff,
        ensures
            r is Ok <==> offset.0 + num_bytes <= self.len(),
            r matches Err(e) ==> e == (OffsetOutOfRange {
                value: offset.0,
                num_bytes,
                length: self.len(),
            }),
    {
        if offset.0 + num_bytes > self.length {
            return Err(OffsetOutOfRange { value: offset.0, num_bytes, length: self.length });
        }
        Ok(())
    }

    /// The port to use for an access of `num_bytes` bytes at `offset`, or the error
    /// when the access reaches past the end of the range.
    pub fn port(&self, offset: IoOffset, num_bytes: u16) -> (r: Result<u16, OffsetOutOfRange>)
        requires
            self.wf(),
            offset.0 + num_bytes <= 0xffff,
        ensures
            r is Ok <==> offset.0 + num_bytes <= self.len(),
            r matches Ok(p) ==> p == self.start() + offset.0,
            r matches Err(e) ==> e == (OffsetOutOfRange {
                value: offset.0,
                num_bytes,
                length: self.len(),
            }),
    {
        match self.verify_offset(offset, num_bytes) {
            Ok(()) => Ok(self.addr + offset.0),
            Err(e) => Err(e),
        }
    }
}

/// Remembers which port ranges were handed out.
pub struct IoAllocator {
    allocated_ranges: Vec<RangeInclusive<u16>>,
}

impl IoAllocator {
    /// The ranges handed out so far, oldest first.
    pub closed spec fn ranges(&self) -> Seq<RangeInclusive<u16>> {
        self.allocated_ranges@
    }

    /// An allocator that handed out nothing yet.
    pub fn new() -> (r: IoAllocator)
        ensures
            r.ranges() == Seq::<RangeInclusive<u16>>::empty(),
    {
        IoAllocator { allocated_ranges: Vec::new() }
    }

    /// Hands out ports `addr..=addr + length - 1`, unless an end point of a range
    /// handed out before lies among them.
    pub fn request_io_range(&mut self, addr: u16, length: u16) -> (r: Option<IoRange>)
        requires
            1 <= addr + length <= 0xffff,
        ensures
            ({
                &&& r is Some <==> request_granted(old(self).ranges(), addr, length)
                &&& r is None ==> final(self).ranges() == old(self).ranges()
                &&& r matches Some(range) ==> range.start() == addr && range.len() == length
                    && range.wf() && final(self).ranges().len() == old(self).ranges().len() + 1
                    && final(self).ranges().drop_last() == old(self).ranges()
                    && final(self).ranges().last()@.start == addr
                    && final(self).ranges().last()@.end == addr + length - 1
            }),
    {
        let new_range = addr..=(addr + length - 1);
        if range_already_allocated(self.allocated_ranges.as_slice(), &new_range) {
            proof {
                let i = choose|i: int|
                    0 <= i < self.allocated_ranges@.len() && overlap(
                        #[trigger] self.allocated_ranges@[i],
                        new_range,
                    );
                assert(overlap_bounds(
                    self.ranges()[i]@.start,
                    self.ranges()[i]@.end,
                    addr,
                    (addr + length - 1) as u16,
                ));
            }
            return None;
        }

        self.allocated_ranges.push(new_range);
        assert(self.allocated_ranges@.drop_last() =~= old(self).allocated_ranges@);
        Some(IoRange { addr, length })
    }
}

} // verus!

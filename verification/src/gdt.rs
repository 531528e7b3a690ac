//! Segment descriptors of the global descriptor table.
use vstd::prelude::*;

use crate::util::bit_manipulation::{
    field, field_u64, lemma_field_u64, with_field_u64, with_field_u8, GetBits, SetBits,
};

verus! {

/// One 8 byte segment descriptor.
#[derive(Copy, Clone)]
pub struct GdtSegment(pub u64);

/// The descriptor of a segment with the given base, limit, access byte and flags:
/// limit bits 0..16 at bit 0 and 16..20 at bit 48, base bits 0..24 at bit 16 and
/// 24..32 at bit 56, the access byte at bit 40 and the four flag bits at bit 52.
pub open spec fn gdt_bits(base: u32, limit: u32, access: u8, flags: u8) -> u64 {
    ((limit as u64) & 0xffff) | (((base as u64) & 0xffffff) << 16u64) | ((access as u64)
        << 40u64) | ((((limit as u64) >> 16u64) & 0xf) << 48u64) | (((flags as u64) & 0xf)
        << 52u64) | (((base as u64) >> 24u64) << 56u64)
}

impl GdtSegment {
    /// Encodes a segment; limit bits above 20 and flag bits above 4 are dropped.
    pub fn new(base: u32, limit: u32, access: u8, flags: u8) -> (r: GdtSegment)
        ensures
            r.0 == gdt_bits(base, limit, access, flags),
    {
        let mut descriptor = 0u64;
        descriptor.set_bits(0, 16, limit as u64);
        descriptor.set_bits(48, 4, (limit >> 16) as u64);

        descriptor.set_bits(16, 24, base as u64);
        descriptor.set_bits(56, 8, (base >> 24) as u64);

        descriptor.set_bits(40, 8, access as u64);
        descriptor.set_bits(52, 4, flags as u64);

        let (b, l, a, f) = (base as u64, limit as u64, access as u64, flags as u64);
        assert(descriptor == with_field_u64(
            with_field_u64(
                with_field_u64(
                    with_field_u64(
                        with_field_u64(with_field_u64(0, 0, 16, l), 48, 4, l >> 16u64),
                        16,
                        24,
                        b,
                    ),
                    56,
                    8,
                    b >> 24u64,
                ),
                40,
                8,
                a,
            ),
            52,
            4,
            f,
        ));
        assert(with_field_u64(
            with_field_u64(
                with_field_u64(
                    with_field_u64(
                        with_field_u64(with_field_u64(0, 0, 16, l), 48, 4, l >> 16u64),
                        16,
                        24,
                        b,
                    ),
                    56,
                    8,
                    b >> 24u64,
                ),
                40,
                8,
                a,
            ),
            52,
            4,
            f,
        ) == (l & 0xffff) | ((b & 0xffffff) << 16u64) | (a << 40u64) | (((l >> 16u64) & 0xf)
            << 48u64) | ((f & 0xf) << 52u64) | ((b >> 24u64) << 56u64)) by (bit_vector)
            requires
                b < 0x1_0000_0000,
                l < 0x1_0000_0000,
                a < 0x100,
                f < 0x100,
        ;
        GdtSegment(descriptor)
    }

    /// The 32 bit base address.
    pub fn base(&self) -> (r: u32)
        ensures
            r == ((((self.0 >> 16u64) & 0xffffff) | ((self.0 >> 56u64) << 24u64)) as u32),
    {
        let data = self.0;
        let mut base = data.get_bits(16, 24);
        let upper = data.get_bits(56, 8);
        base |= upper << 24;
        assert(base == ((data >> 16u64) & 0xffffff) | ((data >> 56u64) << 24u64)) by (bit_vector)
            requires
                base == field_u64(data, 16, 24) | (field_u64(data, 56, 8) << 24u64),
        ;
        base as u32
    }

    /// The 20 bit limit.
    pub fn limit(&self) -> (r: u32)
        ensures
            r == (((self.0 & 0xffff) | (((self.0 >> 48u64) & 0xf) << 16u64)) as u32),
    {
        let data = self.0;
        let mut limit = data.get_bits(0, 16);
        let upper = data.get_bits(48, 4);
        limit |= upper << 16;
        assert(limit == (data & 0xffff) | (((data >> 48u64) & 0xf) << 16u64)) by (bit_vector)
            requires
                limit == field_u64(data, 0, 16) | (field_u64(data, 48, 4) << 16u64),
        ;
        limit as u32
    }

    /// The access byte.
    pub fn access(&self) -> (r: u8)
        ensures
            r == field(self.0 as nat, 40, 8),
    {
        let data = self.0;
        let v = data.get_bits(40, 8);
        assert(field_u64(data, 40, 8) < 0x100) by (bit_vector);
        v as u8
    }

    /// The four flag bits.
    pub fn flags(&self) -> (r: u8)
        ensures
            r == field(self.0 as nat, 52, 4),
    {
        let data = self.0;
        let v = data.get_bits(52, 4);
        assert(field_u64(data, 52, 4) < 0x10) by (bit_vector);
        v as u8
    }
}

/// Reading a descriptor back gives the base, the limit cut to 20 bits, the access
/// byte and the flags cut to 4 bits that it was encoded from.
pub proof fn law_gdt_segment_round_trip(base: u32, limit: u32, access: u8, flags: u8)
    ensures
        ({
            let d = gdt_bits(base, limit, access, flags);
            &&& ((((d >> 16u64) & 0xffffff) | ((d >> 56u64) << 24u64)) as u32) == base
            &&& (((d & 0xffff) | (((d >> 48u64) & 0xf) << 16u64)) as u32) == limit & 0xfffff
            &&& field(d as nat, 40, 8) == access
            &&& field(d as nat, 52, 4) == flags & 0xf
        }),
{
    let (b, l, a, f) = (base as u64, limit as u64, access as u64, flags as u64);
    let d = gdt_bits(base, limit, access, flags);
    assert(d == (l & 0xffff) | ((b & 0xffffff) << 16u64) | (a << 40u64) | (((l >> 16u64) & 0xf)
        << 48u64) | ((f & 0xf) << 52u64) | ((b >> 24u64) << 56u64));
    assert(((((d >> 16u64) & 0xffffff) | ((d >> 56u64) << 24u64)) as u32) == base
        && (((d & 0xffff) | (((d >> 48u64) & 0xf) << 16u64)) as u32) == limit & 0xfffff
        && ((d >> 40u64) & 0xff) == a && ((d >> 52u64) & 0xf) == (f & 0xf)) by (bit_vector)
        requires
            b == base,
            l == limit,
            a == access,
            f == flags,
            d == (l & 0xffff) | ((b & 0xffffff) << 16u64) | (a << 40u64) | (((l >> 16u64) & 0xf)
                << 48u64) | ((f & 0xf) << 52u64) | ((b >> 24u64) << 56u64),
    ;
    lemma_field_u64(d, 40, 8);
    lemma_field_u64(d, 52, 4);
    assert(field_u64(d, 40, 8) == ((d >> 40u64) & 0xff)) by (
    bit_vector);
    assert(field_u64(d, 52, 4) == ((d >> 52u64) & 0xf)) by (
    bit_vector);
}

/// The fields of a segment's access byte.
pub struct AccessByteParams {
    /// Present.
    pub p: bool,
    /// Privilege level, two bits.
    pub dpl: u8,
    /// Code or data segment rather than a system segment.
    pub s: bool,
    /// Executable.
    pub e: bool,
    /// Direction or conforming.
    pub dc: bool,
    /// Readable or writable.
    pub rw: bool,
    /// Accessed.
    pub a: bool,
}

/// The access byte with the given fields: present at bit 7, the low two bits of
/// the privilege level at bits 5 and 6, then s, e, dc, rw and a at bits 4 to 0.
pub open spec fn access_byte(p: AccessByteParams) -> u8 {
    ((if p.p { 0x80u8 } else { 0u8 }) | ((p.dpl & 3u8) << 5u8) | (if p.s { 0x10u8 } else { 0u8 })
        | (if p.e { 0x08u8 } else { 0u8 }) | (if p.dc { 0x04u8 } else { 0u8 }) | (if p.rw {
        0x02u8
    } else {
        0u8
    }) | (if p.a { 0x01u8 } else { 0u8 }))
}

/// Builds the access byte of a segment.
pub fn gen_access_byte(params: AccessByteParams) -> (r: u8)
    ensures
        r == access_byte(params),
{
    let mut access_byte = 0u8;
    access_byte.set_bit(7, params.p);
    access_byte.set_bits(5, 2, params.dpl);
    access_byte.set_bit(4, params.s);
    access_byte.set_bit(3, params.e);
    access_byte.set_bit(2, params.dc);
    access_byte.set_bit(1, params.rw);
    access_byte.set_bit(0, params.a);

    let (p, dpl, s, e, dc, rw, a) = (params.p, params.dpl, params.s, params.e, params.dc, params.rw, params.a);
    let (vp, vs, ve, vdc, vrw, va) = (
        if p { 1u8 } else { 0u8 },
        if s { 1u8 } else { 0u8 },
        if e { 1u8 } else { 0u8 },
        if dc { 1u8 } else { 0u8 },
        if rw { 1u8 } else { 0u8 },
        if a { 1u8 } else { 0u8 },
    );
    assert(with_field_u8(
        with_field_u8(
            with_field_u8(
                with_field_u8(
                    with_field_u8(with_field_u8(with_field_u8(0, 7, 1, vp), 5, 2, dpl), 4, 1, vs),
                    3,
                    1,
                    ve,
                ),
                2,
                1,
                vdc,
            ),
            1,
            1,
            vrw,
        ),
        0,
        1,
        va,
    ) == ((if p { 0x80u8 } else { 0u8 }) | ((dpl & 3u8) << 5u8) | (if s { 0x10u8 } else { 0u8 })
        | (if e { 0x08u8 } else { 0u8 }) | (if dc { 0x04u8 } else { 0u8 }) | (if rw {
        0x02u8
    } else {
        0u8
    }) | (if a { 0x01u8 } else { 0u8 }))) by (bit_vector)
        requires
            vp == if p { 1u8 } else { 0u8 },
            vs == if s { 1u8 } else { 0u8 },
            ve == if e { 1u8 } else { 0u8 },
            vdc == if dc { 1u8 } else { 0u8 },
            vrw == if rw { 1u8 } else { 0u8 },
            va == if a { 1u8 } else { 0u8 },
    ;
    access_byte
}

/// The table the kernel loads: the null segment, then flat 4 GiB code and data
/// segments of privilege level zero with 4 KiB granularity and 32 bit operands.
pub fn get_gdt_vals() -> (r: [GdtSegment; 3])
    ensures
        r[0].0 == 0,
        r[1].0 == gdt_bits(0, 0xffffffff, 0x99, 0b1100),
        r[2].0 == gdt_bits(0, 0xffffffff, 0x93, 0b1100),
{
    let access_byte = gen_access_byte(
        AccessByteParams { p: true, dpl: 0, s: true, e: true, dc: false, rw: false, a: true },
    );
    assert(access_byte == 0x99) by (bit_vector)
        requires
            access_byte == (0x80u8 | ((0u8 & 3u8) << 5u8) | 0x10u8 | 0x08u8 | 0u8 | 0u8 | 0x01u8),
    ;

    let code = GdtSegment::new(0, 0xffffffff, access_byte, 0b1100);

    let access_byte = gen_access_byte(
        AccessByteParams { p: true, dpl: 0, s: true, e: false, dc: false, rw: true, a: true },
    );
    assert(access_byte == 0x93) by (bit_vector)
        requires
            access_byte == (0x80u8 | ((0u8 & 3u8) << 5u8) | 0x10u8 | 0u8 | 0u8 | 0x02u8 | 0x01u8),
    ;

    let data = GdtSegment::new(0, 0xffffffff, access_byte, 0b1100);

    [GdtSegment(0), code, data]
}

} // verus!

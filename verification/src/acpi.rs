//! ACPI tables, read from their bytes: RSDP checksum, RSDT entries and MADT records.
use vstd::prelude::*;

verus! {

/// Little endian value of four bytes at `i` of `b`.
pub open spec fn le32_at(b: Seq<u8>, i: int) -> u32 {
    (b[i] as nat + b[i + 1] as nat * 0x100 + b[i + 2] as nat * 0x10000 + b[i + 3] as nat
        * 0x1000000) as u32
}

/// Reads the little endian `u32` at `i` of `b`.
pub fn read_le32(b: &[u8], i: usize) -> (r: u32)
    requires
        i + 4 <= b@.len(),
    ensures
        r == le32_at(b@, i as int),
{
    (b[i] as u32) + (b[i + 1] as u32) * 0x100 + (b[i + 2] as u32) * 0x10000 + (b[i + 3] as u32)
        * 0x1000000
}

/// Sum of bytes modulo 256.
pub open spec fn byte_sum(b: Seq<u8>) -> nat
    decreases b.len(),
{
    if b.len() == 0 {
        0
    } else {
        ((byte_sum(b.drop_last()) + b.last()) % 256) as nat
    }
}

/// Size of the root system description pointer.
pub const RSDP_LEN: usize = 20;

/// The root system description pointer, as the firmware laid it out.
pub struct Rsdp {
    bytes: Vec<u8>,
}

impl View for Rsdp {
    type V = Seq<u8>;

    closed spec fn view(&self) -> Seq<u8> {
        self.bytes@
    }
}

impl Rsdp {
    /// Reads the pointer from its first 20 bytes.
    pub fn from_bytes(data: &[u8]) -> (r: Rsdp)
        requires
            data@.len() >= RSDP_LEN,
        ensures
            r@ == data@.take(RSDP_LEN as int),
    {
        let mut bytes: Vec<u8> = Vec::new();
        let mut i: usize = 0;
        while i < RSDP_LEN
            invariant
                i <= RSDP_LEN,
                RSDP_LEN <= data@.len(),
                bytes@ == data@.take(i as int),
            decreases RSDP_LEN - i,
        {
            bytes.push(data[i]);
            i += 1;
            assert(bytes@ =~= data@.take(i as int));
        }
        Rsdp { bytes }
    }

    /// Whether the bytes of the pointer add up to zero modulo 256.
    pub fn validate_checksum(&self) -> (r: bool)
        ensures
            r == (byte_sum(self@) == 0),
    {
        let mut acc = 0u8;
        let mut i: usize = 0;
        while i < self.bytes.len()
            invariant
                i <= self.bytes@.len(),
                acc == byte_sum(self.bytes@.take(i as int)),
            decreases self.bytes@.len() - i,
        {
            assert(self.bytes@.take(i + 1).drop_last() =~= self.bytes@.take(i as int));
            acc = acc.wrapping_add(self.bytes[i]);
            i += 1;
        }
        assert(self.bytes@.take(i as int) =~= self.bytes@);
        acc == 0
    }

    /// Physical address of the root system description table.
    pub fn rsdt_address(&self) -> (r: u32)
        requires
            self@.len() == RSDP_LEN,
        ensures
            r == le32_at(self@, 16),
    {
        read_le32(self.bytes.as_slice(), 16)
    }
}

/// Size of the header every system description table starts with.
pub const SDT_HEADER_LEN: usize = 36;

/// The length field of a table header.
pub open spec fn sdt_length(b: Seq<u8>) -> u32 {
    le32_at(b, 4)
}

/// A system description table, read from its bytes.
pub struct AcpiSdtHeader<'a> {
    data: &'a [u8],
}

impl<'a> View for AcpiSdtHeader<'a> {
    type V = Seq<u8>;

    closed spec fn view(&self) -> Seq<u8> {
        self.data@
    }
}

/// What a table turned out to be.
pub enum AcpiTable<'a> {
    Madt(Madt<'a>),
    Unknown([u8; 4]),
}

impl<'a> AcpiSdtHeader<'a> {
    /// Reads a table in place.
    pub fn new(data: &'a [u8]) -> (r: AcpiSdtHeader<'a>)
        ensures
            r@ == data@,
    {
        AcpiSdtHeader { data }
    }

    /// The four byte signature.
    pub fn signature(&self) -> (r: [u8; 4])
        requires
            self@.len() >= 4,
        ensures
            r@ == self@.take(4),
    {
        let r = [self.data[0], self.data[1], self.data[2], self.data[3]];
        assert(r@ =~= self@.take(4));
        r
    }

    /// The length of the whole table.
    pub fn length(&self) -> (r: u32)
        requires
            self@.len() >= 8,
        ensures
            r == sdt_length(self@),
    {
        read_le32(self.data, 4)
    }

    /// The table by its signature: "APIC" is the multiple APIC description table.
    pub fn upgrade(&self) -> (r: AcpiTable<'a>)
        requires
            self@.len() >= 4,
        ensures
            self@.take(4) == seq![0x41u8, 0x50, 0x49, 0x43] ==> (r matches AcpiTable::Madt(m)
                && m@ == self@),
            self@.take(4) != seq![0x41u8, 0x50, 0x49, 0x43] ==> (r matches AcpiTable::Unknown(s)
                && s@ == self@.take(4)),
    {
        let signature = self.signature();
        if signature[0] == 0x41 && signature[1] == 0x50 && signature[2] == 0x49 && signature[3]
            == 0x43 {
            assert(self@.take(4) =~= seq![0x41u8, 0x50, 0x49, 0x43]);
            AcpiTable::Madt(Madt { data: self.data })
        } else {
            assert(signature@ != seq![0x41u8, 0x50, 0x49, 0x43] ==> self@.take(4) != seq![
                0x41u8,
                0x50,
                0x49,
                0x43,
            ]);
            assert(signature@ == seq![0x41u8, 0x50, 0x49, 0x43] ==> signature[0] == 0x41
                && signature[1] == 0x50 && signature[2] == 0x49 && signature[3] == 0x43);
            AcpiTable::Unknown(signature)
        }
    }
}

/// The root system description table: a header followed by 32 bit table addresses.
pub struct Rsdt<'a> {
    data: &'a [u8],
}

impl<'a> View for Rsdt<'a> {
    type V = Seq<u8>;

    closed spec fn view(&self) -> Seq<u8> {
        self.data@
    }
}

/// Number of table addresses an RSDT of byte length `length` holds.
pub open spec fn rsdt_entry_count(length: u32) -> nat {
    ((length - SDT_HEADER_LEN) / 4) as nat
}

/// Walks the table addresses of an RSDT.
pub struct RsdtIterator<'a> {
    data: &'a [u8],
    num_items: usize,
    idx: usize,
}

impl<'a> RsdtIterator<'a> {
    /// Bytes of the table.
    pub closed spec fn bytes(&self) -> Seq<u8> {
        self.data@
    }

    /// Number of addresses in the table.
    pub closed spec fn count(&self) -> nat {
        self.num_items as nat
    }

    /// Number of addresses handed out so far.
    pub closed spec fn position(&self) -> nat {
        self.idx as nat
    }

    /// Whether every address lies within the bytes of the table.
    pub open spec fn wf(&self) -> bool {
        &&& self.position() <= self.count()
        &&& SDT_HEADER_LEN + 4 * self.count() <= self.bytes().len()
    }

    /// The next table address, or `None` after the last one.
    pub fn next(&mut self) -> (r: Option<u32>)
        requires
            old(self).wf(),
        ensures
            final(self).wf(),
            final(self).bytes() == old(self).bytes(),
            final(self).count() == old(self).count(),
            old(self).position() == old(self).count() ==> r is None && final(self).position()
                == old(self).position(),
            old(self).position() < old(self).count() ==> r == Some(
                le32_at(old(self).bytes(), SDT_HEADER_LEN + 4 * old(self).position()),
            ) && final(self).position() == old(self).position() + 1,
    {
        if self.idx == self.num_items {
            return None;
        }
        assert(4 * self.idx < 4 * self.num_items) by (nonlinear_arith)
            requires
                self.idx < self.num_items,
        ;
        assert(SDT_HEADER_LEN + 4 * self.num_items <= self.data@.len());
        let data_len = self.data.len();  // bounds the length by usize::MAX for what follows
        let r = read_le32(self.data, SDT_HEADER_LEN + 4 * self.idx);
        self.idx += 1;
        Some(r)
    }
}

impl<'a> Rsdt<'a> {
    /// Reads the table in place.
    pub fn new(data: &'a [u8]) -> (r: Rsdt<'a>)
        ensures
            r@ == data@,
    {
        Rsdt { data }
    }

    /// Walks the addresses of the tables it lists.
    pub fn iter(&self) -> (r: RsdtIterator<'a>)
        requires
            self@.len() >= 8,
            SDT_HEADER_LEN <= sdt_length(self@) <= self@.len(),
        ensures
            r.wf(),
            r.bytes() == self@,
            r.position() == 0,
            r.count() == rsdt_entry_count(sdt_length(self@)),
    {
        let length = read_le32(self.data, 4) as usize;
        RsdtIterator { data: self.data, idx: 0, num_items: (length - SDT_HEADER_LEN) / 4 }
    }
}

/// A record of the multiple APIC description table.
#[derive(PartialEq, Eq, Structural)]
pub enum MadtEntry {
    LocalApic { acpi_id: u8, apic_id: u8, flags: u32 },
}

/// Size of the MADT before its records.
pub const MADT_HEADER_LEN: usize = 44;

/// The multiple APIC description table.
pub struct Madt<'a> {
    data: &'a [u8],
}

impl<'a> View for Madt<'a> {
    type V = Seq<u8>;

    closed spec fn view(&self) -> Seq<u8> {
        self.data@
    }
}

/// Walks the records of a MADT. A record of a type other than local APIC ends the
/// walk.
pub struct MadtEntryIter<'a> {
    data: &'a [u8],
    it: usize,
    end: usize,
}

/// Whether the record at `i` of `b` can be read: its type and length are there and a
/// local APIC record holds its eight bytes.
pub open spec fn madt_record_readable(b: Seq<u8>, i: int) -> bool {
    &&& i + 2 <= b.len()
    &&& i + 256 <= usize::MAX
    &&& b[i] == 0 ==> i + 8 <= b.len()
}

impl<'a> MadtEntryIter<'a> {
    /// Bytes of the table.
    pub closed spec fn bytes(&self) -> Seq<u8> {
        self.data@
    }

    /// Offset of the next record.
    pub closed spec fn position(&self) -> nat {
        self.it as nat
    }

    /// Offset where the records end.
    pub closed spec fn end(&self) -> nat {
        self.end as nat
    }

    /// The next local APIC record. The walk moves on by the record's length byte.
    pub fn next(&mut self) -> (r: Option<MadtEntry>)
        requires
            old(self).position() < old(self).end() ==> madt_record_readable(
                old(self).bytes(),
                old(self).position() as int,
            ),
        ensures
            final(self).bytes() == old(self).bytes(),
            final(self).end() == old(self).end(),
            old(self).position() >= old(self).end() ==> r is None && final(self).position()
                == old(self).position(),
            old(self).position() < old(self).end() ==> {
                let b = old(self).bytes();
                let i = old(self).position() as int;
                &&& final(self).position() == old(self).position() + b[i + 1]
                &&& b[i] == 0 ==> r == Some(
                    MadtEntry::LocalApic { acpi_id: b[i + 2], apic_id: b[i + 3], flags: le32_at(b, i + 4) },
                )
                &&& b[i] != 0 ==> r is None
            },
    {
        if self.it >= self.end {
            return None;
        }

        let record_type = self.data[self.it];
        let record_length = self.data[self.it + 1];

        let ret = match record_type {
            0 => {
                let flags = read_le32(self.data, self.it + 4);
                let acpi_id = self.data[self.it + 2];
                let apic_id = self.data[self.it + 3];
                Some(MadtEntry::LocalApic { acpi_id, apic_id, flags })
            },
            _ => None,
        };

        self.it = self.it + record_length as usize;

        ret
    }
}

impl<'a> Madt<'a> {
    /// Physical address of the local APIC.
    pub fn local_apic_addr(&self) -> (r: u32)
        requires
            self@.len() >= 40,
        ensures
            r == le32_at(self@, 36),
    {
        read_le32(self.data, 36)
    }

    /// Walks the records that follow the fixed part, up to the table length.
    pub fn entries(&self) -> (r: MadtEntryIter<'a>)
        requires
            self@.len() >= 8,
            MADT_HEADER_LEN <= sdt_length(self@) <= self@.len(),
        ensures
            r.bytes() == self@,
            r.position() == MADT_HEADER_LEN,
            r.end() == sdt_length(self@),
    {
        let length = read_le32(self.data, 4) as usize;
        MadtEntryIter { data: self.data, it: MADT_HEADER_LEN, end: length }
    }
}

} // verus!

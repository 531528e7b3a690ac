//! The PCI configuration space: walking the bus, decoding the registers of a device,
//! and handing each device out once.
use vstd::prelude::*;

use crate::interrupts::{irq_from_line, IrqId};
use crate::io::io_allocator::{overlap_bounds, range_pushed, IoAllocator, IoRange};
use crate::util::bit_manipulation::{bit_set, field, field_u32, with_field_u32, GetBits, SetBits};

verus! {

/// First port of the configuration address and data registers.
pub const PCI_IO_BASE: u16 = 0xCF8;

/// Offset of the configuration address register in the PCI ports.
pub const PCI_CONFIG_OFFSET: u16 = 0;

/// Offset of the configuration data register in the PCI ports.
pub const PCI_DATA_OFFSET: u16 = 4;

/// The PCI ports were handed out before.
pub struct PciIoUnavailable;

/// A device reported a header type that is not known.
pub struct InvalidHeaderError;

/// A device reported an interrupt line no PIC has.
pub struct InvalidIrq;

/// A set of device addresses (bus, slot, function), kept in a `hashbrown::HashSet`.
#[verifier::external_body]
pub struct DeviceSet {
    devices: hashbrown::HashSet<(u8, u8, u8)>,
}

/// The addresses a `DeviceSet` holds.
pub uninterp spec fn device_set_contents(s: DeviceSet) -> Set<(u8, u8, u8)>;

/// An empty set, made by `hashbrown::HashSet::new`.
#[verifier::external_body]
fn device_set_new() -> (r: DeviceSet)
    ensures
        device_set_contents(r) == Set::<(u8, u8, u8)>::empty(),
{
    DeviceSet { devices: hashbrown::HashSet::new() }
}

/// Whether `dev` is in the set, by `hashbrown::HashSet::contains`.
#[verifier::external_body]
fn device_set_contains(s: &DeviceSet, dev: (u8, u8, u8)) -> (r: bool)
    ensures
        r == device_set_contents(*s).contains(dev),
{
    s.devices.contains(&dev)
}

/// Adds `dev` to the set with `hashbrown::HashSet::insert`, which answers whether it
/// was not there before.
#[verifier::external_body]
fn device_set_insert(s: &mut DeviceSet, dev: (u8, u8, u8)) -> (r: bool)
    ensures
        device_set_contents(*final(s)) == device_set_contents(*old(s)).insert(dev),
        r == !device_set_contents(*old(s)).contains(dev),
{
    s.devices.insert(dev)
}

/// Where a function of a device sits on the bus.
#[derive(Clone, Copy, PartialEq, Eq, Structural)]
pub struct PciAddress {
    pub bus: u8,
    pub slot: u8,
    pub function: u8,
}

impl PciAddress {
    /// The address as a tuple.
    pub open spec fn key(self) -> (u8, u8, u8) {
        (self.bus, self.slot, self.function)
    }
}

/// The value written to the configuration address register to reach the register at
/// byte `offset` of function `func` of the device in `slot` on `bus`: the enable bit,
/// then bus, slot (5 bits), function (3 bits) and offset.
pub open spec fn config_address_value(bus: u8, slot: u8, func: u8, offset: u8) -> u32 {
    0x8000_0000u32 | ((bus as u32) << 16u32) | (((slot as u32) & 31) << 11u32) | (((
    func as u32) & 7) << 8u32) | (offset as u32)
}

/// The configuration address for the register at byte `offset` (a multiple of 4) of a
/// function.
pub fn config_address(bus: u8, slot: u8, func: u8, offset: u8) -> (r: u32)
    requires
        offset % 4 == 0,
    ensures
        r == config_address_value(bus, slot, func, offset),
{
    let mut address = offset as u32;
    address.set_bits(8, 3, func as u32);
    address.set_bits(11, 5, slot as u32);
    address.set_bits(16, 8, bus as u32);
    address.set_bit(31, true);
    let o = offset as u32;
    let f = func as u32;
    let s = slot as u32;
    let b = bus as u32;
    assert(with_field_u32(
        with_field_u32(with_field_u32(with_field_u32(o, 8, 3, f), 11, 5, s), 16, 8, b),
        31,
        1,
        1,
    ) == 0x8000_0000u32 | (b << 16u32) | ((s & 31) << 11u32) | ((f & 7) << 8u32) | o)
        by (bit_vector)
        requires
            o < 256,
            f < 256,
            s < 256,
            b < 256,
    ;
    address
}

/// Walks every (bus, slot, function) in order, functions first.
pub struct PciDeviceIter {
    finished_iterating: bool,
    bus_num: u8,
    device_num: u8,
    function: u8,
}

impl PciDeviceIter {
    /// How far the walk is: the number of addresses already passed, 65536 when done.
    pub closed spec fn position(&self) -> int {
        if self.finished_iterating {
            65536
        } else {
            self.bus_num * 256 + self.device_num * 8 + self.function
        }
    }

    /// Whether the fields are in range.
    pub closed spec fn wf(&self) -> bool {
        self.device_num < 32 && self.function < 8
    }

    /// Moves to the next address, and past the end after the last one.
    fn increment_iter(&mut self)
        requires
            old(self).wf(),
            old(self).position() < 65536,
        ensures
            final(self).wf(),
            final(self).position() == old(self).position() + 1,
    {
        self.function = (self.function + 1) % 8;
        if self.function != 0 {
            return;
        }
        self.device_num = (self.device_num + 1) % 32;
        if self.device_num != 0 {
            return;
        }
        self.bus_num = self.bus_num.wrapping_add(1);
        if self.bus_num != 0 {
            return;
        }
        self.finished_iterating = true;
    }

    /// The address the walk is at, `None` once it is done.
    pub fn current(&self) -> (r: Option<PciAddress>)
        requires
            self.wf(),
        ensures
            self.position() == 65536 <==> r is None,
            r matches Some(a) ==> a.bus * 256 + a.slot * 8 + a.function == self.position()
                && a.slot < 32 && a.function < 8,
    {
        if self.finished_iterating {
            None
        } else {
            Some(PciAddress { bus: self.bus_num, slot: self.device_num, function: self.function })
        }
    }

    /// Takes the vendor register read at the current address and moves on: the address
    /// when a device answers there, `None` when no device does (the vendor reads as
    /// all ones).
    pub fn probe(&mut self, device_vendor: u32) -> (r: Option<PciAddress>)
        requires
            old(self).wf(),
            old(self).position() < 65536,
        ensures
            final(self).wf(),
            final(self).position() == old(self).position() + 1,
            device_vendor % 0x10000 == 0xffff ==> r is None,
            device_vendor % 0x10000 != 0xffff ==> (r matches Some(a) && a.bus * 256 + a.slot * 8
                + a.function == old(self).position()),
    {
        let probed_vendor = device_vendor.get_bits(0, 16) as u16;
        proof {
            assert(field(device_vendor as nat, 0, 16) == device_vendor % 0x10000) by {
                vstd::arithmetic::power2::lemma2_to64();
                assert(vstd::arithmetic::power2::pow2(0) == 1 && vstd::arithmetic::power2::pow2(16) == 0x10000);
                assert(device_vendor as nat / 1 == device_vendor as nat);
            }
        }
        let here = PciAddress { bus: self.bus_num, slot: self.device_num, function: self.function };
        self.increment_iter();
        if probed_vendor == 0xffff {
            None
        } else {
            Some(here)
        }
    }
}

/// The PCI configuration ports and the devices handed out.
pub struct Pci {
    pci_io: IoRange,
    allocated_devs: DeviceSet,
}

impl Pci {
    /// The devices handed out, by address.
    pub closed spec fn allocated(&self) -> Set<(u8, u8, u8)> {
        device_set_contents(self.allocated_devs)
    }

    /// The configuration ports.
    pub closed spec fn io(&self) -> IoRange {
        self.pci_io
    }

    /// Takes the eight configuration ports from `io_allocator`.
    pub fn new(io_allocator: &mut IoAllocator) -> (r: Result<Pci, PciIoUnavailable>)
        ensures
            r is Ok <==> !exists|i: int|
                0 <= i < old(io_allocator).ranges().len() && overlap_bounds(
                    #[trigger] old(io_allocator).ranges()[i]@.start,
                    old(io_allocator).ranges()[i]@.end,
                    PCI_IO_BASE,
                    (PCI_IO_BASE + 7) as u16,
                ),
            r is Err ==> final(io_allocator).ranges() == old(io_allocator).ranges(),
            r is Ok ==> range_pushed(
                old(io_allocator).ranges(),
                final(io_allocator).ranges(),
                PCI_IO_BASE,
                8,
            ),
            r matches Ok(pci) ==> pci.io().start() == PCI_IO_BASE && pci.io().len() == 8
                && pci.io().wf() && pci.allocated() == Set::<(u8, u8, u8)>::empty(),
    {
        match io_allocator.request_io_range(PCI_IO_BASE, 8) {
            None => Err(PciIoUnavailable),
            Some(pci_io) => Ok(Pci { pci_io, allocated_devs: device_set_new() }),
        }
    }

    /// The configuration ports, for the reads and writes of the registers.
    pub fn io_range(&self) -> (r: &IoRange)
        ensures
            *r == self.io(),
    {
        &self.pci_io
    }

    /// A walk over every address of the bus, from the first.
    pub fn devices(&self) -> (r: PciDeviceIter)
        ensures
            r.wf(),
            r.position() == 0,
    {
        PciDeviceIter { finished_iterating: false, bus_num: 0, device_num: 0, function: 0 }
    }

    /// Whether the device at `addr` was handed out.
    pub fn is_allocated(&self, addr: &PciAddress) -> (r: bool)
        ensures
            r == self.allocated().contains(addr.key()),
    {
        device_set_contains(&self.allocated_devs, (addr.bus, addr.slot, addr.function))
    }
}

/// Byte offset of 32 bit register `register` of a function's configuration space.
pub fn register_offset(register: u8) -> (r: u8)
    requires
        register < 64,
    ensures
        r == register * 4,
{
    register * 4
}

/// The status and command register `status_command` with bus mastering (bit 2) on.
pub fn bus_mastering_enabled(status_command: u32) -> (r: u32)
    ensures
        forall|i: nat|
            i < 32 ==> #[trigger] bit_set(r as nat, i) == (i == 2 || bit_set(
                status_command as nat,
                i,
            )),
{
    let mut status_command = status_command;
    status_command.set_bit(2, true);
    status_command
}

/// The type of function the header type register describes.
pub open spec fn header_type(header_register: u32) -> nat {
    field(header_register as nat, 16, 8)
}

impl PciAddress {
    /// Claims the function at this address, whose header type register (register 3)
    /// reads `header_register`: a general device, a bridge, or an error for an
    /// unknown header type. The address counts as handed out either way.
    pub fn upgrade(self, pci: &mut Pci, header_register: u32) -> (r: Result<
        PciDevice,
        InvalidHeaderError,
    >)
        requires
            !old(pci).allocated().contains(self.key()),
        ensures
            final(pci).allocated() == old(pci).allocated().insert(self.key()),
            final(pci).io() == old(pci).io(),
            header_type(header_register) == 0 ==> (r matches Ok(PciDevice::General(d))
                && d.address() == self),
            header_type(header_register) == 1 ==> r matches Ok(PciDevice::PciPciBridge),
            header_type(header_register) == 2 ==> r matches Ok(PciDevice::PciCardBusBridge),
            header_type(header_register) > 2 ==> r is Err,
    {
        let header_type = header_register.get_bits(16, 8);
        device_set_insert(&mut pci.allocated_devs, (self.bus, self.slot, self.function));
        if header_type == 0 {
            Ok(PciDevice::General(GeneralPciDevice { addr: self }))
        } else if header_type == 1 {
            Ok(PciDevice::PciPciBridge)
        } else if header_type == 2 {
            Ok(PciDevice::PciCardBusBridge)
        } else {
            Err(InvalidHeaderError)
        }
    }
}

/// A memory mapped region a device decodes.
pub struct MmapRange {
    pub start: usize,
    pub length: usize,
}

/// What kind of device a function is.
pub struct PciInterfaceId {
    pub class: u8,
    pub subclass: u8,
    pub interface: u8,
    pub revision: u8,
}

/// A function with the general header layout.
pub struct GeneralPciDevice {
    addr: PciAddress,
}

/// Whether base address register `bar` describes I/O ports at a non zero address.
pub open spec fn io_bar(bar: u32) -> bool {
    bit_set(bar as nat, 0) && field(bar as nat, 2, 30) > 0
}

/// Whether base address register `bar` describes memory at a non zero address.
pub open spec fn mmap_bar(bar: u32) -> bool {
    !bit_set(bar as nat, 0) && bar > 0
}

/// The PCI devices the bus walk finds.
pub enum PciDevice {
    General(GeneralPciDevice),
    PciPciBridge,
    PciCardBusBridge,
}

impl GeneralPciDevice {
    /// Where the function sits.
    pub closed spec fn address(&self) -> PciAddress {
        self.addr
    }

    /// Where the function sits, for the reads and writes of its registers.
    pub fn addr(&self) -> (r: PciAddress)
        ensures
            r == self.address(),
    {
        self.addr
    }

    /// Vendor and device id, from register 0.
    pub fn id(&self, reg: u32) -> (r: (u16, u16))
        ensures
            r.0 == field(reg as nat, 0, 16),
            r.1 == field(reg as nat, 16, 16),
    {
        let vendor = reg.get_bits(0, 16);
        let device = reg.get_bits(16, 16);
        assert(field_u32(reg, 0, 16) < 0x10000 && field_u32(reg, 16, 16) < 0x10000)
            by (bit_vector);
        (vendor as u16, device as u16)
    }

    /// Class, subclass, interface and revision, from the register at offset 8.
    pub fn interface_id(&self, reg: u32) -> (r: PciInterfaceId)
        ensures
            r.class == field(reg as nat, 24, 8),
            r.subclass == field(reg as nat, 16, 8),
            r.interface == field(reg as nat, 8, 8),
            r.revision == field(reg as nat, 0, 8),
    {
        let class = reg.get_bits(24, 8);
        let subclass = reg.get_bits(16, 8);
        let interface = reg.get_bits(8, 8);
        let revision = reg.get_bits(0, 8);
        assert(field_u32(reg, 24, 8) < 0x100 && field_u32(reg, 16, 8) < 0x100 && field_u32(
            reg,
            8,
            8,
        ) < 0x100 && field_u32(reg, 0, 8) < 0x100) by (bit_vector);
        PciInterfaceId {
            class: class as u8,
            subclass: subclass as u8,
            interface: interface as u8,
            revision: revision as u8,
        }
    }

    /// The I/O port base of the first base address register (registers 4 to 9, read
    /// into `bars`) that describes I/O ports, with its flag bits cleared.
    pub fn find_io_base(&self, bars: &[u32; 6]) -> (r: Option<u32>)
        ensures
            r is None <==> forall|i: int| 0 <= i < 6 ==> !#[trigger] io_bar(bars[i]),
            r matches Some(v) ==> exists|i: int|
                0 <= i < 6 && io_bar(bars[i]) && (forall|j: int|
                    0 <= j < i ==> !#[trigger] io_bar(bars[j])) && v == bars[i] & 0xffff_fffc,
    {
        let mut i: usize = 0;
        while i < 6
            invariant
                i <= 6,
                forall|j: int| 0 <= j < i ==> !#[trigger] io_bar(bars[j]),
            decreases 6 - i,
        {
            let base_address = bars[i];
            if base_address.get_bit(0) && base_address.get_bits(2, 30) > 0 {
                assert(io_bar(bars[i as int]));
                let v = base_address & !0b11u32;
                assert(!0b11u32 == 0xffff_fffcu32) by (bit_vector);
                return Some(v);
            }
            i += 1;
        }
        None
    }

    /// Index of the first base address register in `bars` that describes memory.
    pub fn find_mmap_bar(&self, bars: &[u32; 6]) -> (r: Option<usize>)
        ensures
            r is None <==> forall|i: int| 0 <= i < 6 ==> !#[trigger] mmap_bar(bars[i]),
            r matches Some(i) ==> i < 6 && mmap_bar(bars[i as int]) && (forall|j: int|
                0 <= j < i ==> !#[trigger] mmap_bar(bars[j])),
    {
        let mut i: usize = 0;
        while i < 6
            invariant
                i <= 6,
                forall|j: int| 0 <= j < i ==> !#[trigger] mmap_bar(bars[j]),
            decreases 6 - i,
        {
            let base_address = bars[i];
            if !base_address.get_bit(0) && base_address > 0 {
                assert(mmap_bar(bars[i as int]));
                return Some(i);
            }
            i += 1;
        }
        None
    }

    /// The interrupt line, from register 15.
    pub fn get_irq_num(&self, reg: u32) -> (r: Result<IrqId, InvalidIrq>)
        ensures
            field(reg as nat, 0, 8) < 8 ==> r == Ok::<IrqId, InvalidIrq>(
                IrqId::Pic1(field(reg as nat, 0, 8) as u8),
            ),
            8 <= field(reg as nat, 0, 8) < 16 ==> r == Ok::<IrqId, InvalidIrq>(
                IrqId::Pic2((field(reg as nat, 0, 8) - 8) as u8),
            ),
            field(reg as nat, 0, 8) >= 16 ==> r is Err,
    {
        let irq = reg.get_bits(0, 8);
        assert(field_u32(reg, 0, 8) < 0x100) by (bit_vector);
        match irq_from_line(irq as u8) {
            Some(id) => Ok(id),
            None => Err(InvalidIrq),
        }
    }
}

/// The memory region of a base address register that read `base_address`, and that
/// read `end_address` after all ones were written to it: it starts at the address
/// bits and is as long as the bits the device keeps at zero say.
pub fn mmap_range_from_bar(base_address: u32, end_address: u32) -> (r: MmapRange)
    ensures
        r.start == (base_address & 0xffff_fff0) as usize,
        r.length == (!(end_address & 0xffff_fff0)).wrapping_add(1) as usize,
{
    assert(!0b1111u32 == 0xffff_fff0u32) by (bit_vector);
    let start = (base_address & !0b1111u32) as usize;
    let length: u32 = (!(end_address & !0b1111u32)).wrapping_add(1);
    MmapRange { start, length: length as usize }
}

} // verus!

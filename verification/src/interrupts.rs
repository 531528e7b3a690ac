//! Interrupt descriptors, PIC programming and interrupt numbering.
use vstd::prelude::*;

use crate::io::io_allocator::OffsetOutOfRange;
use crate::util::bit_manipulation::{bit_set, with_field_u64, with_field_u8, SetBits};

verus! {

/// Vector of the first line of the primary PIC.
pub const PIC1_OFFSET: u8 = 0x40;

/// Vector of the first line of the secondary PIC.
pub const PIC2_OFFSET: u8 = 0x48;

/// One 8 byte entry of the interrupt descriptor table.
#[derive(Copy, Clone)]
pub struct GateDescriptor(pub u64);

/// The fields of an interrupt gate.
pub struct GateDescriptorNewArgs {
    pub offset: u32,
    pub segment_selector: u16,
    pub gate_type: u8,
    pub dpl: u8,
    pub p: bool,
}

/// The encoded gate: the low half of the handler address in bits 0 to 15 and its
/// high half in bits 48 to 63, the code segment selector in bits 16 to 31, the type
/// in bits 40 to 43, the privilege level in bits 45 and 46, and the presence flag in
/// bit 47.
pub open spec fn gate_bits(args: GateDescriptorNewArgs) -> u64 {
    ((args.offset as u64) & 0xffff) | (((args.offset as u64) >> 16u64) << 48u64) | ((
    args.segment_selector as u64) << 16u64) | (((args.gate_type as u64) & 0xf) << 40u64) | (((
    args.dpl as u64) & 3) << 45u64) | ((if args.p { 1u64 } else { 0u64 }) << 47u64)
}

impl GateDescriptor {
    /// Encodes an interrupt gate.
    pub fn new(args: GateDescriptorNewArgs) -> (r: GateDescriptor)
        ensures
            r.0 == gate_bits(args),
    {
        let mut descriptor = 0u64;

        let (o, sel, t, d, p) = (
            args.offset as u64,
            args.segment_selector as u64,
            args.gate_type as u64,
            args.dpl as u64,
            if args.p { 1u64 } else { 0u64 },
        );
        descriptor.set_bits(0, 16, o);
        descriptor.set_bits(48, 16, o >> 16);
        descriptor.set_bits(16, 16, sel);
        descriptor.set_bits(40, 4, t);
        descriptor.set_bits(45, 2, d);
        descriptor.set_bits(47, 1, p);

        assert(with_field_u64(
            with_field_u64(
                with_field_u64(
                    with_field_u64(
                        with_field_u64(with_field_u64(0, 0, 16, o), 48, 16, o >> 16u64),
                        16,
                        16,
                        sel,
                    ),
                    40,
                    4,
                    t,
                ),
                45,
                2,
                d,
            ),
            47,
            1,
            p,
        ) == (o & 0xffff) | ((o >> 16u64) << 48u64) | (sel << 16u64) | ((t & 0xf) << 40u64) | ((
        d & 3) << 45u64) | (p << 47u64)) by (bit_vector)
            requires
                o < 0x1_0000_0000,
                sel < 0x1_0000,
                t < 0x100,
                d < 0x100,
                p < 2,
        ;

        GateDescriptor(descriptor)
    }
}

/// The gates of the interrupt descriptor table: one present 32 bit interrupt gate of
/// privilege level zero in the kernel code segment (selector 8) per stub address.
pub fn build_gate_descriptors(stub_addresses: &[u32]) -> (r: Vec<GateDescriptor>)
    ensures
        r@.len() == stub_addresses@.len(),
        forall|i: int|
            0 <= i < r@.len() ==> #[trigger] r@[i].0 == gate_bits(
                GateDescriptorNewArgs {
                    offset: stub_addresses@[i],
                    segment_selector: 0x08,
                    gate_type: 0b1111,
                    dpl: 0,
                    p: true,
                },
            ),
{
    let mut table: Vec<GateDescriptor> = Vec::new();
    let mut i: usize = 0;
    while i < stub_addresses.len()
        invariant
            i <= stub_addresses@.len(),
            table@.len() == i,
            forall|j: int|
                0 <= j < i ==> #[trigger] table@[j].0 == gate_bits(
                    GateDescriptorNewArgs {
                        offset: stub_addresses@[j],
                        segment_selector: 0x08,
                        gate_type: 0b1111,
                        dpl: 0,
                        p: true,
                    },
                ),
        decreases stub_addresses@.len() - i,
    {
        let descriptor = GateDescriptor::new(
            GateDescriptorNewArgs {
                offset: stub_addresses[i],
                segment_selector: 0x08,
                gate_type: 0b1111,
                dpl: 0,
                p: true,
            },
        );
        table.push(descriptor);
        i += 1;
    }
    table
}

/// Length in bytes of an interrupt entry stub.
pub const STUB_LEN: usize = 21;

/// The machine code of the entry stub for interrupt `num`: save the registers, push
/// `num`, call the handler at `handler_addr`, drop the argument, restore and `iret`.
pub open spec fn interrupt_stub(num: u8, handler_addr: u32) -> Seq<u8> {
    seq![0x55u8, 0x89, 0xe5, 0x60, 0x6a, num, 0xb8] + seq![
        (handler_addr % 0x100) as u8,
        ((handler_addr / 0x100) % 0x100) as u8,
        ((handler_addr / 0x10000) % 0x100) as u8,
        (handler_addr / 0x1000000) as u8,
    ] + seq![0xffu8, 0xd0, 0x83, 0xc4, 0x04, 0x61, 0x89, 0xec, 0x5d, 0xcf]
}

/// Builds the entry stub for interrupt `num` that calls the handler at `handler_addr`.
pub fn generate_interrupt_stub(num: u8, handler_addr: u32) -> (r: [u8; 21])
    ensures
        r@ == interrupt_stub(num, handler_addr),
{
    let template: [u8; 21] = [
        0x55, 0x89, 0xe5, 0x60, 0x6a, 0x5a, 0xb8, 0x00, 0x05, 0x11, 0x00, 0xff, 0xd0, 0x83, 0xc4,
        0x04, 0x61, 0x89, 0xec, 0x5d, 0xcf,
    ];
    let num_index: usize = 5;
    let function_addr_index: usize = 7;
    let mut ret = template;
    ret[num_index] = num;
    let addr = handler_addr;
    assert(addr & 0xff == addr % 0x100 && (addr >> 8u32) & 0xff == (addr / 0x100) % 0x100 && (addr
        >> 16u32) & 0xff == (addr / 0x10000) % 0x100 && addr >> 24u32 == addr / 0x1000000) by (
    bit_vector);
    ret[function_addr_index] = (addr & 0xff) as u8;
    ret[function_addr_index + 1] = ((addr >> 8) & 0xff) as u8;
    ret[function_addr_index + 2] = ((addr >> 16) & 0xff) as u8;
    ret[function_addr_index + 3] = (addr >> 24) as u8;
    assert(ret@ =~= interrupt_stub(num, handler_addr));
    ret
}

/// Where an interrupt request comes from.
#[derive(Clone, Copy, PartialEq, Eq, Structural)]
pub enum IrqId {
    /// A vector raised inside the processor or by another processor.
    Internal(u8),
    /// A line of the primary PIC.
    Pic1(u8),
    /// A line of the secondary PIC.
    Pic2(u8),
}

/// Whether the interrupt vector of `irq_id` fits in a byte.
pub open spec fn irq_in_range(irq_id: IrqId) -> bool {
    match irq_id {
        IrqId::Internal(i) => true,
        IrqId::Pic1(i) => i + PIC1_OFFSET <= 0xff,
        IrqId::Pic2(i) => i + PIC2_OFFSET <= 0xff,
    }
}

/// The interrupt vector of `irq_id`.
pub open spec fn vector_of(irq_id: IrqId) -> u8 {
    match irq_id {
        IrqId::Internal(i) => i,
        IrqId::Pic1(i) => (i + PIC1_OFFSET) as u8,
        IrqId::Pic2(i) => (i + PIC2_OFFSET) as u8,
    }
}

/// The interrupt vector that `irq_id` arrives on.
pub fn interrupt_number(irq_id: IrqId) -> (r: u8)
    requires
        irq_in_range(irq_id),
    ensures
        r == vector_of(irq_id),
{
    match irq_id {
        IrqId::Internal(i) => i,
        IrqId::Pic1(i) => i + PIC1_OFFSET,
        IrqId::Pic2(i) => i + PIC2_OFFSET,
    }
}

/// The PIC mask `mask` with line `line` unmasked, the other lines as they were.
pub fn unmask_line(mask: u8, line: u8) -> (r: u8)
    requires
        line < 8,
    ensures
        forall|i: nat|
            i < 8 ==> #[trigger] bit_set(r as nat, i) == (i != line && bit_set(mask as nat, i)),
{
    let mut mask = mask;
    mask.set_bit(line, false);
    mask
}

/// The interrupt line that a PCI device reports, as an [`IrqId`]: lines 0 to 7 are on
/// the primary PIC, 8 to 15 on the secondary one, and higher numbers are invalid.
pub fn irq_from_line(irq: u8) -> (r: Option<IrqId>)
    ensures
        irq < 8 ==> r == Some(IrqId::Pic1(irq)),
        8 <= irq < 16 ==> r == Some(IrqId::Pic2((irq - 8) as u8)),
        irq >= 16 ==> r is None,
{
    if irq < 8 {
        Some(IrqId::Pic1(irq))
    } else if irq < 16 {
        Some(IrqId::Pic2(irq - 8))
    } else {
        None
    }
}

/// Which controllers must be told that an interrupt was handled.
#[derive(PartialEq, Eq, Structural)]
pub enum EndOfInterrupt {
    /// Secondary processors get interrupts through their local APIC.
    Apic,
    /// Lines of the secondary PIC: acknowledge it, then the primary one.
    Pic2ThenPic1,
    /// Lines of the primary PIC.
    Pic1,
    /// Vectors no PIC raised.
    Nothing,
}

/// How to acknowledge interrupt `interrupt_number` handled on the bootstrap processor
/// (`on_bsp`) or on another one.
pub fn end_of_interrupt(interrupt_number: u8, on_bsp: bool) -> (r: EndOfInterrupt)
    ensures
        r == if !on_bsp {
            EndOfInterrupt::Apic
        } else if PIC2_OFFSET <= interrupt_number < PIC2_OFFSET + 8 {
            EndOfInterrupt::Pic2ThenPic1
        } else if PIC1_OFFSET <= interrupt_number < PIC1_OFFSET + 8 {
            EndOfInterrupt::Pic1
        } else {
            EndOfInterrupt::Nothing
        },
{
    if !on_bsp {
        return EndOfInterrupt::Apic;
    }
    if PIC2_OFFSET <= interrupt_number && interrupt_number < PIC2_OFFSET + 8 {
        return EndOfInterrupt::Pic2ThenPic1;
    }
    if PIC1_OFFSET <= interrupt_number && interrupt_number < PIC1_OFFSET + 8 {
        return EndOfInterrupt::Pic1;
    }
    EndOfInterrupt::Nothing
}

/// Command byte that acknowledges an interrupt.
pub const END_OF_INTERRUPT: u8 = 0x20;

/// Which PIC port a byte goes to.
#[derive(Clone, Copy, PartialEq, Eq, Structural)]
pub enum PicPort {
    Pic1Command,
    Pic1Data,
    Pic2Command,
    Pic2Data,
}

/// One byte written to a PIC.
#[derive(Clone, Copy, PartialEq, Eq, Structural)]
pub struct PicWrite {
    pub port: PicPort,
    pub value: u8,
}

/// The writes that move the PIC vectors to `offset1` and `offset2`, cascade the
/// secondary PIC on line 2 and put back the masks `mask1` and `mask2` read before.
pub fn pic_remap_writes(offset1: u8, offset2: u8, mask1: u8, mask2: u8) -> (r: Vec<PicWrite>)
    ensures
        r@ == seq![
            PicWrite { port: PicPort::Pic1Command, value: 0x11 },
            PicWrite { port: PicPort::Pic2Command, value: 0x11 },
            PicWrite { port: PicPort::Pic1Data, value: offset1 },
            PicWrite { port: PicPort::Pic2Data, value: offset2 },
            PicWrite { port: PicPort::Pic1Data, value: 4 },
            PicWrite { port: PicPort::Pic2Data, value: 2 },
            PicWrite { port: PicPort::Pic1Data, value: 1 },
            PicWrite { port: PicPort::Pic2Data, value: 1 },
            PicWrite { port: PicPort::Pic1Data, value: mask1 },
            PicWrite { port: PicPort::Pic2Data, value: mask2 },
        ],
{
    let icw1_icw4: u8 = 0x01;
    let icw1_init: u8 = 0x10;
    let icw4_8086: u8 = 0x01;
    let init = icw1_init + icw1_icw4;
    vec![
        PicWrite { port: PicPort::Pic1Command, value: init },
        PicWrite { port: PicPort::Pic2Command, value: init },
        PicWrite { port: PicPort::Pic1Data, value: offset1 },
        PicWrite { port: PicPort::Pic2Data, value: offset2 },
        PicWrite { port: PicPort::Pic1Data, value: 4 },
        PicWrite { port: PicPort::Pic2Data, value: 2 },
        PicWrite { port: PicPort::Pic1Data, value: icw4_8086 },
        PicWrite { port: PicPort::Pic2Data, value: icw4_8086 },
        PicWrite { port: PicPort::Pic1Data, value: mask1 },
        PicWrite { port: PicPort::Pic2Data, value: mask2 },
    ]
}

/// The writes that mask every line except line 2 of the primary PIC, which the
/// secondary one is cascaded on.
pub fn pic_disable_interrupts_writes() -> (r: Vec<PicWrite>)
    ensures
        r@ == seq![
            PicWrite { port: PicPort::Pic1Data, value: 0b1111_1011 },
            PicWrite { port: PicPort::Pic2Data, value: 0xff },
        ],
{
    vec![
        PicWrite { port: PicPort::Pic1Data, value: 0b1111_1011 },
        PicWrite { port: PicPort::Pic2Data, value: 0xff },
    ]
}

/// Failure while handling an interrupt.
pub enum InterruptHandlerError {
    NotInitialized,
    Pic1Eoi(OffsetOutOfRange),
    Pic2Eoi(OffsetOutOfRange),
}

/// Failure while registering an interrupt handler.
pub enum InterruptHandlerRegisterError {
    NotInitialized,
    ReadPic1(OffsetOutOfRange),
    ReadPic2(OffsetOutOfRange),
    WritePic1(OffsetOutOfRange),
    WritePic2(OffsetOutOfRange),
}

/// Failure while moving the PIC vectors.
pub struct PicRemapError(pub OffsetOutOfRange);

/// Failure while masking the PIC lines.
pub struct DisableInterruptError(pub OffsetOutOfRange);

/// Failure while setting up interrupts.
pub enum InitInterruptError {
    AcquirePic1,
    AcquirePic2,
    RemapPic(PicRemapError),
    DisableInterrupts(DisableInterruptError),
}

} // verus!

//! The RTL8139 network card: the register values the driver writes, the transmit
//! slots it cycles through, and the framing of packets in the receive ring.
use vstd::prelude::*;

use crate::interrupts::InterruptHandlerRegisterError;
use crate::io::pci::{InvalidHeaderError, MmapRange, PciDevice};
use crate::util::bit_manipulation::{with_field_u16, with_field_u32, with_field_u8, SetBits};

verus! {

/// Offset of the command register.
pub const COMMAND_REGISTER_OFFSET: usize = 0x37;

/// Offset of the receive buffer start register.
pub const RBSTART_OFFSET: usize = 0x30;

/// Offset of the receive configuration register.
pub const RECEIVE_CONFIG_OFFSET: usize = 0x44;

/// Offset of the interrupt mask register.
pub const INTERRUPT_MASK_OFFSET: usize = 0x3c;

/// Offset of the interrupt status register.
pub const INTERRUPT_STATUS_OFFSET: usize = 0x3e;

/// Offset of the transmit configuration register.
pub const TRANSMIT_CONFIG_OFFSET: usize = 0x40;

/// Offset of the first transmit status register.
pub const TRANSMIT_STATUS_OFFSET: usize = 0x10;

/// Offset of the first transmit start address register.
pub const TRANSMIT_DATA_OFFSET: usize = 0x20;

/// Offset of the current address of packet read register.
pub const CAPR_OFFSET: usize = 0x38;

/// Offset of the current buffer address register.
pub const CBR_OFFSET: usize = 0x3a;

/// The interrupts the driver takes: receive ok (bit 0) and transmit ok (bit 2).
pub const INTERRUPT_MASK: u16 = 0x5;

/// The value the packet read register starts at; the card reads it 16 bytes on.
pub const INITIAL_CAPR: u16 = 0xfff0;

/// Size of the receive ring: 64 KiB of data as receive configuration `0b11` says, 16
/// bytes of overhead and room for a full packet past the end, as the ring wraps.
pub const RECEIVE_BUFFER_SIZE: usize = 64 * 1024 + 16 + 1536;

/// Frames shorter than this are not sent.
pub const MIN_PACKET_LEN: usize = 60;

/// Number of transmit slots the card has.
pub const NUM_TRANSMIT_SLOTS: u8 = 4;

/// A register did not keep the value written to it.
pub struct ValueNotSet<T> {
    pub set: T,
    pub retreived: T,
}

/// Setting up the receive ring failed.
pub enum InitReceiveBufferError {
    WriteReceiveBuffer(ValueNotSet<u32>),
    SetReceiveBufferSize(ValueNotSet<u32>),
}

/// The card reported an interrupt line no PIC has.
pub struct InvalidIrq;

/// Setting up the card's interrupt failed.
pub enum InitInterruptError {
    InvalidIrq(InvalidIrq),
    Register(InterruptHandlerRegisterError),
}

/// Setting up the transmitter failed.
pub enum SetTransmitConfigError {
    EnableLoopback(ValueNotSet<u32>),
    EnableAppendCrc(ValueNotSet<u32>),
}

/// Why the card could not be set up.
pub enum Rtl8139InitError {
    PciProbeFailed(InvalidHeaderError),
    DeviceNotFound,
    PciHeaderTypeIncorrect(PciDevice),
    MmapRangeNotFound,
    MmapRangeUnexpected(usize),
    InitReceiveBuffer(InitReceiveBufferError),
    InitInterrupts(InitInterruptError),
    EnableTransmitReceive(ValueNotSet<u8>),
    SetTransmitConfig(SetTransmitConfigError),
    InitReceiveConfig(ValueNotSet<u32>),
    InitCapr(ValueNotSet<u16>),
}

/// The frame was shorter than the card sends.
pub struct PacketTooShort;

/// A zeroed receive ring.
pub fn generate_receive_buffer() -> (r: Vec<u8>)
    ensures
        r@ == Seq::new(RECEIVE_BUFFER_SIZE as nat, |i: int| 0u8),
{
    let mut rx_buffer: Vec<u8> = Vec::new();
    let mut i: usize = 0;
    while i < RECEIVE_BUFFER_SIZE
        invariant
            i <= RECEIVE_BUFFER_SIZE,
            rx_buffer@ == Seq::new(i as nat, |j: int| 0u8),
        decreases RECEIVE_BUFFER_SIZE - i,
    {
        rx_buffer.push(0);
        i += 1;
        assert(rx_buffer@ =~= Seq::new(i as nat, |j: int| 0u8));
    }
    rx_buffer
}

/// The card's register window must be 256 bytes long.
pub fn check_mmap_range(range: &MmapRange) -> (r: Result<(), Rtl8139InitError>)
    ensures
        range.length == 256 ==> r is Ok,
        range.length != 256 ==> (r matches Err(Rtl8139InitError::MmapRangeUnexpected(l))
            && l == range.length),
{
    if range.length != 256 {
        return Err(Rtl8139InitError::MmapRangeUnexpected(range.length));
    }
    Ok(())
}

/// The command register `val` with the reset bit (bit 4) set.
pub fn reset_value(val: u8) -> (r: u8)
    ensures
        r == val | 0x10,
{
    let x = val;
    let mut val = val;
    val.set_bit(4, true);
    assert(with_field_u8(x, 4, 1, 1) == x | 0x10) by (bit_vector);
    val
}

/// The receive configuration `val` with the ring size (bits 11 and 12) set to 64 KiB.
pub fn receive_buffer_size_value(val: u32) -> (r: u32)
    ensures
        r == val | 0x1800,
{
    let x = val;
    let mut val = val;
    val.set_bits(11, 2, 0b11);
    assert(with_field_u32(x, 11, 2, 3) == x | 0x1800) by (bit_vector);
    val
}

/// The command register `val` with the receiver and transmitter enabled (bits 2 and 3).
pub fn enable_transmit_receive_value(val: u8) -> (r: u8)
    ensures
        r == val | 0xc,
{
    let x = val;
    let mut val = val;
    val.set_bits(2, 2, 0b11);
    assert(with_field_u8(x, 2, 2, 3) == x | 0xc) by (bit_vector);
    val
}

/// The transmit configuration `config` with loopback (bits 17 and 18) on.
pub fn loopback_value(config: u32) -> (r: u32)
    ensures
        r == config | 0x6_0000,
{
    let x = config;
    let mut config = config;
    config.set_bits(17, 2, 0b11);
    assert(with_field_u32(x, 17, 2, 3) == x | 0x6_0000) by (bit_vector);
    config
}

/// The transmit configuration `config` with the card appending the CRC (bit 16 set).
pub fn append_crc_value(config: u32) -> (r: u32)
    ensures
        r == config | 0x1_0000,
{
    let x = config;
    let mut config = config;
    config.set_bit(16, true);
    assert(with_field_u32(x, 16, 1, 1) == x | 0x1_0000) by (bit_vector);
    config
}

/// The receive configuration `config` with the accept bits (0 to 5) cleared but for
/// physical match (bit 1) and multicast (bit 3), and with wrapping (bit 7) on.
pub fn receive_configuration_value(config: u32) -> (r: u32)
    ensures
        r == (config & 0xffff_ffc0) | 0x8a,
{
    let x = config;
    let mut config = config;
    config.set_bits(0, 6, 0x00);
    config.set_bit(1, true);
    config.set_bit(3, true);
    config.set_bit(7, true);
    assert(with_field_u32(
        with_field_u32(with_field_u32(with_field_u32(x, 0, 6, 0), 1, 1, 1), 3, 1, 1),
        7,
        1,
        1,
    ) == (x & 0xffff_ffc0) | 0x8a) by (bit_vector);
    config
}

/// The transmit status register `status` set up to send `len` bytes: the size in bits
/// 0 to 11 and the own bit (13) cleared, which starts the transfer.
pub fn transmit_status_value(status: u32, len: u32) -> (r: u32)
    ensures
        r == (status & 0xffff_d000) | (len & 0xfff),
{
    let x = status;
    let mut status = status;
    status.set_bits(0, 12, len);
    status.set_bit(13, false);
    assert(with_field_u32(with_field_u32(x, 0, 12, len), 13, 1, 0) == (x & 0xffff_d000) | (len
        & 0xfff)) by (bit_vector);
    status
}

/// Whether the transmit status `status` says the card is done with the slot (own bit,
/// bit 13).
pub fn transmission_done(status: u32) -> (r: bool)
    ensures
        r == (status & 0x2000 != 0),
{
    status & 0x2000 != 0
}

/// Whether the card wrote a packet the driver has not read: the read position, 16
/// bytes on, is not where the card writes next.
pub fn packet_available(capr: u16, cbr: u16) -> (r: bool)
    ensures
        r == (capr.wrapping_add(16) != cbr),
{
    capr.wrapping_add(16) != cbr
}

/// Where the next packet starts in the receive ring when the read register is `capr`.
pub open spec fn packet_start(capr: u16) -> int {
    capr.wrapping_add(16) as int
}

/// Length of the packet at `start` of the ring `buf`: the little endian 16 bit word
/// after the 16 bit header.
pub open spec fn packet_len(buf: Seq<u8>, start: int) -> int {
    buf[start + 2] + buf[start + 3] * 256
}

/// Whether the packet the read register `capr` points at lies within `buf`.
pub open spec fn packet_in_ring(buf: Seq<u8>, capr: u16) -> bool {
    let start = packet_start(capr);
    start + 4 <= buf.len() && start + 4 + packet_len(buf, start) <= buf.len()
}

/// Checks [`packet_in_ring`].
pub fn packet_fits(capr: u16, receive_buf: &[u8]) -> (r: bool)
    ensures
        r == packet_in_ring(receive_buf@, capr),
{
    let start = capr.wrapping_add(16) as usize;
    if start > receive_buf.len() || receive_buf.len() - start < 4 {
        return false;
    }
    let length = (receive_buf[start + 2] as usize) + (receive_buf[start + 3] as usize) * 256;
    length <= receive_buf.len() - start - 4
}

/// The packet the read register `capr` points at: the header and length come first,
/// then the packet.
pub fn get_packet(capr: u16, receive_buf: &[u8]) -> (r: &[u8])
    requires
        packet_in_ring(receive_buf@, capr),
    ensures
        r@ == receive_buf@.subrange(
            packet_start(capr) + 4,
            packet_start(capr) + 4 + packet_len(receive_buf@, packet_start(capr)),
        ),
{
    let n = receive_buf.len();  // bounds the length by usize::MAX for what follows
    let start = capr.wrapping_add(16) as usize;
    let length = (receive_buf[start + 2] as usize) + (receive_buf[start + 3] as usize) * 256;
    let r = &receive_buf[start + 4..start + 4 + length];
    r
}

/// The read register after the packet at `capr` is consumed: past its 4 byte header
/// and its data, rounded up to 4 bytes, in 16 bit arithmetic.
pub fn increment_capr(capr: u16, receive_buf: &[u8]) -> (r: u16)
    requires
        packet_start(capr) + 4 <= receive_buf@.len(),
    ensures
        r == capr.wrapping_add(
            (packet_len(receive_buf@, packet_start(capr)) as u16).wrapping_add(7),
        ) & 0xfffc,
{
    let start = capr.wrapping_add(16) as usize;
    let length = (receive_buf[start + 2] as u16) + (receive_buf[start + 3] as u16) * 256;
    assert(!0b11u16 == 0xfffcu16) by (bit_vector);
    capr.wrapping_add(length.wrapping_add(7)) & !0b11u16
}

/// The transmit side of the driver: the slot the next frame goes to.
pub struct Transmitter {
    transmit_idx: u8,
}

impl Transmitter {
    /// The slot the next frame goes to.
    pub closed spec fn slot(&self) -> u8 {
        self.transmit_idx
    }

    /// Starts at slot 0.
    pub fn new() -> (r: Transmitter)
        ensures
            r.slot() == 0,
    {
        Transmitter { transmit_idx: 0 }
    }

    /// Whether a frame of `len` bytes can be sent, and if so the offsets of the start
    /// address and status registers of the slot it goes to.
    pub fn registers_for(&self, len: usize) -> (r: Result<(usize, usize), PacketTooShort>)
        requires
            self.slot() < 4,
        ensures
            len < MIN_PACKET_LEN <==> r is Err,
            r matches Ok((data, status)) ==> data == TRANSMIT_DATA_OFFSET + 4 * self.slot()
                && status == TRANSMIT_STATUS_OFFSET + 4 * self.slot(),
    {
        if len < MIN_PACKET_LEN {
            return Err(PacketTooShort);
        }
        let extra_offset = self.transmit_idx as usize * 4;
        Ok((TRANSMIT_DATA_OFFSET + extra_offset, TRANSMIT_STATUS_OFFSET + extra_offset))
    }

    /// Moves on to the next slot once a frame is sent.
    pub fn advance(&mut self)
        requires
            old(self).slot() < 4,
        ensures
            final(self).slot() == (old(self).slot() + 1) % 4,
    {
        self.transmit_idx = (self.transmit_idx + 1) % NUM_TRANSMIT_SLOTS;
    }
}

} // verus!

//! The CMOS real time clock: register selection, status bits and date layout.
use vstd::prelude::*;

use crate::interrupts::InterruptHandlerRegisterError;
use crate::io::io_allocator::{
    overlap_bounds, range_pushed, IoAllocator, IoOffset, IoRange, OffsetOutOfRange,
};
use crate::util::bit_manipulation::bit_set;

verus! {

/// Whether register selection keeps non maskable interrupts enabled.
pub const NMI_ENABLE: bool = true;

/// Offset of the register select port.
pub const CONTROL_OFFSET: u16 = 0;

/// Offset of the data port.
pub const DATA_OFFSET: u16 = 1;

/// Failure while reading the date, by field.
pub enum ReadError {
    Seconds(OffsetOutOfRange),
    Minutes(OffsetOutOfRange),
    Hours(OffsetOutOfRange),
    Weekday(OffsetOutOfRange),
    Day(OffsetOutOfRange),
    Month(OffsetOutOfRange),
    Year(OffsetOutOfRange),
    Century(OffsetOutOfRange),
}

/// Failure while writing the date, by field.
pub enum WriteError {
    Seconds(OffsetOutOfRange),
    Minutes(OffsetOutOfRange),
    Hours(OffsetOutOfRange),
    Weekday(OffsetOutOfRange),
    Day(OffsetOutOfRange),
    Month(OffsetOutOfRange),
    Year(OffsetOutOfRange),
    Century(OffsetOutOfRange),
}

/// A date and time as the clock keeps it.
#[derive(Clone, Copy, PartialEq, Eq, Structural)]
pub struct DateTime {
    pub seconds: u8,
    pub minutes: u8,
    pub hours: u8,
    pub weekday: u8,
    pub day: u8,
    pub month: u8,
    pub year: u8,
    pub century: u8,
}

/// Failure while setting up the clock.
pub enum RtcInitError {
    RequestIoRange,
    SetDataFormat(OffsetOutOfRange),
    SetInterruptRate(OffsetOutOfRange),
    EnableInterrupts(OffsetOutOfRange),
    RegisterInterruptHandler(InterruptHandlerRegisterError),
}

/// Bit 7 of the select byte disables non maskable interrupts.
pub fn get_nmi_mask(nmi_enable: bool) -> (r: u8)
    ensures
        r == if nmi_enable {
            0u8
        } else {
            0x80u8
        },
{
    assert(1u8 << 7u8 == 0x80u8) by (bit_vector);
    if nmi_enable {
        0
    } else {
        1 << 7
    }
}

/// The byte written to the select port to choose register `reg`.
pub fn select_reg_value(nmi_enable: bool, reg: u8) -> (r: u8)
    ensures
        r == (if nmi_enable {
            0u8
        } else {
            0x80u8
        }) | reg,
{
    get_nmi_mask(nmi_enable) | reg
}

/// Number of status register A.
pub const STATUS_REG_A_NUM: u8 = 0x0a;

/// Number of status register B.
pub const STATUS_REG_B_NUM: u8 = 0x0b;

/// Whether status register A says that the clock is updating its registers (bit 7).
pub fn in_progress_set(status_reg_a: u8) -> (r: bool)
    ensures
        r == bit_set(status_reg_a as nat, 7),
{
    assert(1u8 << 7u8 == 0x80u8) by (bit_vector);
    let in_progress_mask: u8 = 1 << 7;
    proof {
        crate::util::bit_manipulation::lemma_bit_u8(status_reg_a, 7);
    }
    assert((status_reg_a & 0x80u8 == 0x80u8) == ((status_reg_a >> 7u8) & 1u8 == 1u8)) by (
    bit_vector);
    status_reg_a & in_progress_mask == in_progress_mask
}

/// Register A with the rate selector set to 1 (256 Hz periodic interrupts), the
/// upper four bits kept.
pub fn interrupt_rate_value(prev: u8) -> (r: u8)
    ensures
        r == (prev & 0xf0) | 1,
{
    (prev & 0xf0) | 1
}

/// Register B with 24 hour mode (bit 1) and binary values (bit 2) switched on.
pub fn data_format_value(prev: u8) -> (r: u8)
    ensures
        r == prev | 6,
{
    let mut status_reg = prev;
    assert(1u8 << 1u8 == 2u8 && 1u8 << 2u8 == 4u8) by (bit_vector);
    status_reg |= 1 << 1;
    status_reg |= 1 << 2;
    assert(status_reg == prev | 6) by (bit_vector)
        requires
            status_reg == (prev | 2) | 4,
    ;
    status_reg
}

/// Register B with periodic interrupts (bit 6) switched on.
pub fn enable_interrupts_value(prev: u8) -> (r: u8)
    ensures
        r == prev | 0x40,
{
    prev | 0x40
}

/// Register that `enable_interrupts_value` applies to: register B, selected with
/// non maskable interrupts disabled.
pub const INTERRUPT_ENABLE_REG: u8 = 0x8b;

/// Register read to clear a pending clock interrupt.
pub const INTERRUPT_STATUS_REG: u8 = 0x0c;

/// The clock registers holding the date: seconds, minutes, hours, weekday, day,
/// month, year and century.
pub open spec fn date_time_registers() -> Seq<u8> {
    seq![0x00u8, 0x02, 0x04, 0x06, 0x07, 0x08, 0x09, 0x32]
}

/// The clock registers holding the date, in the order the fields of [`DateTime`] are.
pub fn date_time_register_numbers() -> (r: [u8; 8])
    ensures
        r@ == date_time_registers(),
{
    let r: [u8; 8] = [0x00, 0x02, 0x04, 0x06, 0x07, 0x08, 0x09, 0x32];
    assert(r@ =~= date_time_registers());
    r
}

/// The fields of `d` in register order.
pub open spec fn date_time_values(d: DateTime) -> Seq<u8> {
    seq![d.seconds, d.minutes, d.hours, d.weekday, d.day, d.month, d.year, d.century]
}

impl DateTime {
    /// The values to write to the date registers, in register order.
    pub fn register_values(&self) -> (r: [u8; 8])
        ensures
            r@ == date_time_values(*self),
    {
        let r = [
            self.seconds,
            self.minutes,
            self.hours,
            self.weekday,
            self.day,
            self.month,
            self.year,
            self.century,
        ];
        assert(r@ =~= date_time_values(*self));
        r
    }

    /// The date read from the date registers, given in register order.
    pub fn from_register_values(values: &[u8; 8]) -> (r: DateTime)
        ensures
            date_time_values(r) == values@,
    {
        let r = DateTime {
            seconds: values[0],
            minutes: values[1],
            hours: values[2],
            weekday: values[3],
            day: values[4],
            month: values[5],
            year: values[6],
            century: values[7],
        };
        assert(date_time_values(r) =~= values@);
        r
    }
}

/// Writing a date to the registers and reading the registers back gives the same
/// date.
pub proof fn law_date_time_round_trip(d: DateTime, back: DateTime)
    requires
        date_time_values(back) == date_time_values(d),
    ensures
        back == d,
{
    assert(date_time_values(back)[0] == date_time_values(d)[0]);
    assert(date_time_values(back)[1] == date_time_values(d)[1]);
    assert(date_time_values(back)[2] == date_time_values(d)[2]);
    assert(date_time_values(back)[3] == date_time_values(d)[3]);
    assert(date_time_values(back)[4] == date_time_values(d)[4]);
    assert(date_time_values(back)[5] == date_time_values(d)[5]);
    assert(date_time_values(back)[6] == date_time_values(d)[6]);
    assert(date_time_values(back)[7] == date_time_values(d)[7]);
}

/// First port of the CMOS: the register select port, then the data port.
pub const CMOS_BASE: u16 = 0x70;

/// The real time clock, through its two CMOS ports.
pub struct Rtc {
    cmos_io: IoRange,
}

impl Rtc {
    /// The CMOS ports.
    pub closed spec fn io(&self) -> IoRange {
        self.cmos_io
    }

    /// Takes the two CMOS ports from `io_allocator`; the clock is then set up with
    /// [`data_format_value`], [`interrupt_rate_value`] and [`enable_interrupts_value`].
    pub fn new(io_allocator: &mut IoAllocator) -> (r: Result<Rtc, RtcInitError>)
        ensures
            r is Ok <==> !exists|i: int|
                0 <= i < old(io_allocator).ranges().len() && overlap_bounds(
                    #[trigger] old(io_allocator).ranges()[i]@.start,
                    old(io_allocator).ranges()[i]@.end,
                    CMOS_BASE,
                    (CMOS_BASE + 1) as u16,
                ),
            r matches Err(e) ==> e is RequestIoRange,
            r is Err ==> final(io_allocator).ranges() == old(io_allocator).ranges(),
            r is Ok ==> range_pushed(
                old(io_allocator).ranges(),
                final(io_allocator).ranges(),
                CMOS_BASE,
                2,
            ),
            r matches Ok(rtc) ==> rtc.io().start() == CMOS_BASE && rtc.io().len() == 2
                && rtc.io().wf(),
    {
        match io_allocator.request_io_range(CMOS_BASE, 2) {
            Some(cmos_io) => Ok(Rtc { cmos_io }),
            None => Err(RtcInitError::RequestIoRange),
        }
    }

    /// The ports, for selecting and reading registers.
    pub fn io_range(&self) -> (r: &IoRange)
        ensures
            *r == self.io(),
    {
        &self.cmos_io
    }
}

} // verus!

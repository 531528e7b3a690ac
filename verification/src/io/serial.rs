//! The 16550 serial port: setup sequence, loopback check and line status.
use vstd::prelude::*;

use crate::io::io_allocator::{
    overlap_bounds, range_pushed, IoAllocator, IoOffset, IoRange, OffsetOutOfRange,
};

verus! {

/// First port of COM1.
pub const BASE_ADDR: u16 = 0x3f8;

/// Offset of the data register.
pub const DATA_OFFSET: u16 = 0;

/// Offset of the interrupt enable register.
pub const ENABLE_INTERRUPT_OFFSET: u16 = 1;

/// Offset of the interrupt identification and FIFO control register.
pub const INTERRUPT_ID_FIFO_CONTROL_OFFSET: u16 = 2;

/// Offset of the line control register.
pub const LINE_CONTROL_OFFSET: u16 = 3;

/// Offset of the modem control register.
pub const MODEM_CONTROL_OFFSET: u16 = 4;

/// Offset of the line status register.
pub const LINE_STATUS_OFFSET: u16 = 5;

/// Byte sent in loopback mode to test the chip.
pub const LOOPBACK_TEST_BYTE: u8 = 0xAE;

/// Modem control value for normal operation: interrupts and both outputs on.
pub const NORMAL_OPERATION: u8 = 0x0F;

/// Failure while setting up the port.
pub enum SerialInitError {
    IoRangeReserved,
    WriteFailed(OffsetOutOfRange),
    Loopback,
}

/// Failure while sending a byte.
pub struct WriteError(pub OffsetOutOfRange);

/// The register writes that set the port up and put it into loopback mode with the
/// test byte sent: (offset, value) pairs, in order.
pub open spec fn init_writes() -> Seq<(u16, u8)> {
    seq![
        (ENABLE_INTERRUPT_OFFSET, 0x02u8),
        (LINE_CONTROL_OFFSET, 0x80u8),
        (DATA_OFFSET, 0x00u8),
        (ENABLE_INTERRUPT_OFFSET, 0x02u8),
        (LINE_CONTROL_OFFSET, 0x03u8),
        (INTERRUPT_ID_FIFO_CONTROL_OFFSET, 0xC7u8),
        (MODEM_CONTROL_OFFSET, 0x0Bu8),
        (MODEM_CONTROL_OFFSET, 0x1Eu8),
        (DATA_OFFSET, LOOPBACK_TEST_BYTE),
    ]
}

/// The register writes that set the port up and put it into loopback mode with the
/// test byte sent: (offset, value) pairs, in order.
pub fn serial_init_writes() -> (r: Vec<(u16, u8)>)
    ensures
        r@ == init_writes(),
{
    vec![
        (ENABLE_INTERRUPT_OFFSET, 0x02),
        (LINE_CONTROL_OFFSET, 0x80),
        (DATA_OFFSET, 0x00),
        (ENABLE_INTERRUPT_OFFSET, 0x02),
        (LINE_CONTROL_OFFSET, 0x03),
        (INTERRUPT_ID_FIFO_CONTROL_OFFSET, 0xC7),
        (MODEM_CONTROL_OFFSET, 0x0B),
        (MODEM_CONTROL_OFFSET, 0x1E),
        (DATA_OFFSET, LOOPBACK_TEST_BYTE),
    ]
}

/// Checks the byte read back in loopback mode: when it is the test byte the chip works
/// and the last write of the setup follows, which leaves loopback mode for normal
/// operation; else the setup fails with `Loopback`.
pub fn check_loopback(read_back: u8) -> (r: Result<(u16, u8), SerialInitError>)
    ensures
        r is Ok <==> read_back == LOOPBACK_TEST_BYTE,
        r matches Ok(w) ==> w == (MODEM_CONTROL_OFFSET, NORMAL_OPERATION),
        r matches Err(e) ==> e is Loopback,
{
    if read_back != LOOPBACK_TEST_BYTE {
        return Err(SerialInitError::Loopback);
    }
    Ok((MODEM_CONTROL_OFFSET, NORMAL_OPERATION))
}

/// What the setup of the port does next, once its ports are taken.
pub enum SerialSetupAction {
    /// Write the value to the register at the offset.
    Write(u16, u8),
    /// Read the data register; the byte goes to the next step.
    ReadBack,
    /// The port is set up.
    Done,
    /// The setup failed.
    Fail(SerialInitError),
}

/// Step `step` of the setup, with the byte read back in loopback mode once there is
/// one: the writes of [`init_writes`], the read of the test byte, then the switch to
/// normal operation when the byte came back unchanged, or the `Loopback` failure.
pub open spec fn setup_action(step: nat, read_back: Option<u8>) -> SerialSetupAction {
    if step < init_writes().len() {
        SerialSetupAction::Write(init_writes()[step as int].0, init_writes()[step as int].1)
    } else if step == init_writes().len() {
        SerialSetupAction::ReadBack
    } else if step == init_writes().len() + 1 {
        match read_back {
            None => SerialSetupAction::ReadBack,
            Some(b) => if b == LOOPBACK_TEST_BYTE {
                SerialSetupAction::Write(MODEM_CONTROL_OFFSET, NORMAL_OPERATION)
            } else {
                SerialSetupAction::Fail(SerialInitError::Loopback)
            },
        }
    } else {
        SerialSetupAction::Done
    }
}

/// Step `step` of setting the port up; the caller performs the write or read it asks
/// for and moves on to the next step, handing over the byte read back.
pub fn serial_setup_step(step: usize, read_back: Option<u8>) -> (r: SerialSetupAction)
    ensures
        r == setup_action(step as nat, read_back),
{
    let writes = serial_init_writes();
    if step < writes.len() {
        let (offset, value) = writes[step];
        SerialSetupAction::Write(offset, value)
    } else if step == writes.len() {
        SerialSetupAction::ReadBack
    } else if step == writes.len() + 1 {
        match read_back {
            None => SerialSetupAction::ReadBack,
            Some(b) => match check_loopback(b) {
                Ok((offset, value)) => SerialSetupAction::Write(offset, value),
                Err(e) => SerialSetupAction::Fail(e),
            },
        }
    } else {
        SerialSetupAction::Done
    }
}

/// The setup writes the nine registers of [`init_writes`] and reads the test byte
/// back; it fails with `Loopback` exactly when that byte is not the test byte, and
/// else ends by writing normal operation to the modem control register. Every write
/// lies within the eight ports of the device, so none fails, and no step is any
/// other failure.
pub proof fn law_serial_setup(read_back: u8)
    ensures
        forall|i: nat| #![auto] i < 9 ==> setup_action(i, None) == SerialSetupAction::Write(
            init_writes()[i as int].0,
            init_writes()[i as int].1,
        ),
        setup_action(9, None) == SerialSetupAction::ReadBack,
        read_back != LOOPBACK_TEST_BYTE <==> setup_action(10, Some(read_back))
            == SerialSetupAction::Fail(SerialInitError::Loopback),
        read_back == LOOPBACK_TEST_BYTE <==> setup_action(10, Some(read_back))
            == SerialSetupAction::Write(MODEM_CONTROL_OFFSET, NORMAL_OPERATION),
        setup_action(11, Some(read_back)) == SerialSetupAction::Done,
        forall|step: nat, b: Option<u8>|
            #[trigger] setup_action(step, b) matches SerialSetupAction::Write(o, _) ==> o < 8,
        forall|step: nat, b: Option<u8>|
            #[trigger] setup_action(step, b) matches SerialSetupAction::Fail(e) ==> e is Loopback,
{
    assert(init_writes().len() == 9);
}

/// Whether the line status register says the transmitter can take a byte (bit 5).
pub fn is_transmit_ready(line_status: u8) -> (r: bool)
    ensures
        r == (line_status & 0x20 != 0),
{
    (line_status & 0x20) != 0
}

/// The serial port, through its eight I/O ports.
pub struct Serial {
    serial_io: IoRange,
}

impl Serial {
    /// The ports of the serial port.
    pub closed spec fn io(&self) -> IoRange {
        self.serial_io
    }

    /// Takes the eight ports of COM1 from `io_allocator`; the port is then set up and
    /// checked with [`serial_init_writes`] and [`check_loopback`].
    pub fn new(io_allocator: &mut IoAllocator) -> (r: Result<Serial, SerialInitError>)
        ensures
            r is Ok <==> !exists|i: int|
                0 <= i < old(io_allocator).ranges().len() && overlap_bounds(
                    #[trigger] old(io_allocator).ranges()[i]@.start,
                    old(io_allocator).ranges()[i]@.end,
                    BASE_ADDR,
                    (BASE_ADDR + 7) as u16,
                ),
            r matches Err(e) ==> e is IoRangeReserved,
            r is Err ==> final(io_allocator).ranges() == old(io_allocator).ranges(),
            r matches Ok(s) ==> s.io().start() == BASE_ADDR && s.io().len() == 8 && s.io().wf(),
            r is Ok ==> range_pushed(
                old(io_allocator).ranges(),
                final(io_allocator).ranges(),
                BASE_ADDR,
                8,
            ),
    {
        match io_allocator.request_io_range(BASE_ADDR, 8) {
            Some(serial_io) => Ok(Serial { serial_io }),
            None => Err(SerialInitError::IoRangeReserved),
        }
    }

    /// The ports, for the reads and writes of the registers.
    pub fn io_range(&self) -> (r: &IoRange)
        ensures
            *r == self.io(),
    {
        &self.serial_io
    }
}

} // verus!

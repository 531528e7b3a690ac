//! The PS/2 keyboard controller: its ports and the values the driver writes.
use vstd::prelude::*;

use crate::io::io_allocator::{overlap_bounds, range_pushed, request_granted, IoAllocator, IoRange};
use crate::util::bit_manipulation::{bit_set, with_field_u8, SetBits};

verus! {

/// Port of the data register.
pub const PS2_DATA_PORT: u16 = 0x60;

/// Port of the command and status register.
pub const PS2_COMMAND_PORT: u16 = 0x64;

/// Commands that turn both ports of the controller off.
pub const DISABLE_COMMANDS: [u8; 2] = [0xAD, 0xA7];

/// Command that turns the first port back on.
pub const ENABLE_COMMAND: u8 = 0xAE;

/// Command that reads the configuration byte.
pub const READ_CONFIG_COMMAND: u8 = 0x20;

/// Command that sends the next data byte to the first device, and the reset it sends.
pub const RESET_COMMANDS: [u8; 2] = [0xD1, 0xFF];

/// The keyboard: its data port and its command port.
pub struct Ps2Keyboard {
    data: IoRange,
    command: IoRange,
}

impl Ps2Keyboard {
    /// The data port.
    pub closed spec fn data_io(&self) -> IoRange {
        self.data
    }

    /// The command port.
    pub closed spec fn command_io(&self) -> IoRange {
        self.command
    }

    /// Takes the data and command ports from `io_allocator`; `None` when one of them
    /// was handed out before.
    pub fn new(io_allocator: &mut IoAllocator) -> (r: Option<Ps2Keyboard>)
        ensures
            r is Some <==> (forall|i: int|
                0 <= i < old(io_allocator).ranges().len() ==> !overlap_bounds(
                    #[trigger] old(io_allocator).ranges()[i]@.start,
                    old(io_allocator).ranges()[i]@.end,
                    PS2_DATA_PORT,
                    PS2_DATA_PORT,
                ) && !overlap_bounds(
                    old(io_allocator).ranges()[i]@.start,
                    old(io_allocator).ranges()[i]@.end,
                    PS2_COMMAND_PORT,
                    PS2_COMMAND_PORT,
                )),
            r matches Some(k) ==> {
                &&& k.data_io().start() == PS2_DATA_PORT && k.data_io().len() == 1
                    && k.data_io().wf()
                &&& k.command_io().start() == PS2_COMMAND_PORT && k.command_io().len() == 1
                    && k.command_io().wf()
                &&& range_pushed(
                    old(io_allocator).ranges(),
                    final(io_allocator).ranges().drop_last(),
                    PS2_DATA_PORT,
                    1,
                )
                &&& range_pushed(
                    final(io_allocator).ranges().drop_last(),
                    final(io_allocator).ranges(),
                    PS2_COMMAND_PORT,
                    1,
                )
            },
            r is None ==> if request_granted(old(io_allocator).ranges(), PS2_DATA_PORT, 1) {
                range_pushed(
                    old(io_allocator).ranges(),
                    final(io_allocator).ranges(),
                    PS2_DATA_PORT,
                    1,
                )
            } else {
                final(io_allocator).ranges() == old(io_allocator).ranges()
            },
    {
        let data = match io_allocator.request_io_range(PS2_DATA_PORT, 1) {
            Some(d) => d,
            None => {
                return None;
            },
        };
        let ghost mid = io_allocator.ranges();
        let command = match io_allocator.request_io_range(PS2_COMMAND_PORT, 1) {
            Some(c) => c,
            None => {
                proof {
                    let i = choose|i: int|
                        0 <= i < mid.len() && overlap_bounds(
                            #[trigger] mid[i]@.start,
                            mid[i]@.end,
                            PS2_COMMAND_PORT,
                            PS2_COMMAND_PORT,
                        );
                    if i < old(io_allocator).ranges().len() {
                        assert(mid[i] == old(io_allocator).ranges()[i]);
                    }
                }
                return None;
            },
        };
        proof {
            assert forall|i: int| 0 <= i < old(io_allocator).ranges().len() implies !overlap_bounds(
                #[trigger] old(io_allocator).ranges()[i]@.start,
                old(io_allocator).ranges()[i]@.end,
                PS2_COMMAND_PORT,
                PS2_COMMAND_PORT,
            ) by {
                assert(mid[i] == old(io_allocator).ranges()[i]);
            }
        }
        Some(Ps2Keyboard { data, command })
    }

    /// The data port, for reading keys.
    pub fn data(&self) -> (r: &IoRange)
        ensures
            *r == self.data_io(),
    {
        &self.data
    }

    /// The command port, for commands and the status.
    pub fn command(&self) -> (r: &IoRange)
        ensures
            *r == self.command_io(),
    {
        &self.command
    }
}

/// Whether the status register `status` says a byte waits in the output buffer.
pub fn output_full(status: u8) -> (r: bool)
    ensures
        r == bit_set(status as nat, 0),
{
    crate::util::bit_manipulation::GetBits::get_bit(&status, 0)
}

/// The configuration byte `config` with the first port's interrupt on (bit 0), the
/// second port's off (bit 1) and translation off (bit 6).
pub fn config_reg_value(config: u8) -> (r: u8)
    ensures
        r == (config | 1) & 0xbd,
{
    let x = config;
    let mut v = config;
    v.set_bit(0, true);
    v.set_bit(1, false);
    v.set_bit(6, false);
    assert(with_field_u8(with_field_u8(with_field_u8(x, 0, 1, 1), 1, 1, 0), 6, 1, 0) == (x | 1)
        & 0xbd) by (bit_vector);
    v
}

} // verus!

//! Starting the other processors and sending them interrupts: the values written to
//! the local APIC's interrupt command registers, and which processors to start.
use vstd::prelude::*;

use crate::util::bit_manipulation::{bit_set, with_field_u32, GetBits, SetBits};

verus! {

/// Where the local APIC's registers are mapped.
pub const APIC_ADDR: usize = 0xfee00000;

/// Interrupt vector that wakes a processor to run queued work.
pub const WAKEUP_IRQ_ID: u8 = 0x90;

/// APIC id of the processor the machine boots on.
pub const BSP_ID: u8 = 0;

/// The target processor has no work queue.
pub struct ExecuteError;

/// A dispatcher exists already.
pub struct CpuFnDispatcherError;

/// The local APIC, by the address its registers are mapped at.
pub struct Apic {
    inner: usize,
}

impl Apic {
    /// Address of the register block.
    pub closed spec fn base(&self) -> int {
        self.inner as int
    }

    /// The local APIC whose registers are mapped at `ptr`.
    pub fn new(ptr: usize) -> (r: Apic)
        ensures
            r.base() == ptr,
    {
        Apic { inner: ptr }
    }

    /// Address of the high half of the interrupt command register.
    pub fn icr_high(&self) -> (r: usize)
        requires
            self.base() + 0x310 <= usize::MAX,
        ensures
            r == self.base() + 0x310,
    {
        self.inner + 0x310
    }

    /// Address of the low half of the interrupt command register.
    pub fn icr_low(&self) -> (r: usize)
        requires
            self.base() + 0x300 <= usize::MAX,
        ensures
            r == self.base() + 0x300,
    {
        self.inner + 0x300
    }

    /// Address of the end of interrupt register.
    pub fn eoi(&self) -> (r: usize)
        requires
            self.base() + 0xb0 <= usize::MAX,
        ensures
            r == self.base() + 0xb0,
    {
        self.inner + 0xb0
    }

    /// Address of the spurious interrupt vector register.
    pub fn siv(&self) -> (r: usize)
        requires
            self.base() + 0xf0 <= usize::MAX,
        ensures
            r == self.base() + 0xf0,
    {
        self.inner + 0xf0
    }
}

/// The spurious interrupt vector register `siv` with the APIC software enable bit
/// (bit 8) set.
pub fn enable_interrupts_value(siv: u32) -> (r: u32)
    ensures
        r == siv | 0x100,
{
    siv | 0x100
}

/// The high half of the interrupt command register `high_val` with the destination
/// (bits 24 to 31) set to `id`.
pub fn select_ap(id: u8, high_val: u32) -> (r: u32)
    ensures
        r == (high_val & 0x00ff_ffff) | ((id as u32) << 24u32),
{
    let x = high_val;
    let v = id as u32;
    let mut high_val = high_val;
    high_val.set_bits(24, 8, v);
    assert(with_field_u32(x, 24, 8, v) == (x & 0x00ff_ffffu32) | (v << 24u32)) by (bit_vector)
        requires
            v < 256,
    ;
    high_val
}

/// Whether the low half of the interrupt command register `low_val` says the last
/// interrupt was delivered (delivery status, bit 12, is clear).
pub fn ipi_delivered(low_val: u32) -> (r: bool)
    ensures
        r == !bit_set(low_val as nat, 12),
{
    !low_val.get_bit(12)
}

/// Which processors the interrupt goes to, besides the destination field.
pub enum DestinationShorthand {
    NoShorthand,
    OnlySelf,
    AllIncludingSelf,
    AllExcludingSelf,
}

/// The kind of interrupt.
pub enum DeliveryMode {
    Fixed,
    LowestPriority,
    Smi,
    Nmi,
    Init,
    StartUp,
}

/// How the destination field names processors.
pub enum DestinationMode {
    Physical,
    Logical,
}

/// Whether the last interrupt is still being delivered.
pub enum DeliveryStatus {
    Idle,
    Pending,
}

/// Level of an INIT interrupt.
pub enum Level {
    Deassert,
    Assert,
}

/// How the interrupt is signalled.
pub enum TriggerMode {
    Edge,
    Level,
}

/// The fields of an interrupt command.
pub struct InterruptCommand {
    pub destination_shorthand: DestinationShorthand,
    pub delivery_mode: DeliveryMode,
    pub destination_mode: DestinationMode,
    pub delivery_status: DeliveryStatus,
    pub level: Level,
    pub trigger_mode: TriggerMode,
    pub vector: u8,
}

/// The three bit code of a delivery mode.
pub open spec fn delivery_mode_code(m: DeliveryMode) -> u32 {
    match m {
        DeliveryMode::Fixed => 0b000,
        DeliveryMode::LowestPriority => 0b001,
        DeliveryMode::Smi => 0b010,
        DeliveryMode::Nmi => 0b100,
        DeliveryMode::Init => 0b101,
        DeliveryMode::StartUp => 0b110,
    }
}

/// The two bit code of a destination shorthand.
pub open spec fn shorthand_code(s: DestinationShorthand) -> u32 {
    match s {
        DestinationShorthand::NoShorthand => 0b00,
        DestinationShorthand::OnlySelf => 0b01,
        DestinationShorthand::AllIncludingSelf => 0b10,
        DestinationShorthand::AllExcludingSelf => 0b11,
    }
}

/// Bits of the low half of the interrupt command register that a command sets.
pub const ICR_LOW_COMMAND_BITS: u32 = 0x000c_dfff;

/// The low half of the interrupt command register `initial` with the fields of
/// `cmd` written in: vector (bits 0 to 7), delivery mode (8 to 10), destination mode
/// (11), delivery status (12), level (14), trigger mode (15) and destination
/// shorthand (18 and 19); the other bits as they were.
pub open spec fn icr_low_value(cmd: InterruptCommand, initial: u32) -> u32 {
    let dest: u32 = if cmd.destination_mode is Logical {
        1
    } else {
        0
    };
    let status: u32 = if cmd.delivery_status is Pending {
        1
    } else {
        0
    };
    let level: u32 = if cmd.level is Assert {
        1
    } else {
        0
    };
    let trigger: u32 = if cmd.trigger_mode is Level {
        1
    } else {
        0
    };
    (initial & !ICR_LOW_COMMAND_BITS) | (cmd.vector as u32) | (delivery_mode_code(
        cmd.delivery_mode,
    ) << 8u32) | (dest << 11u32) | (status << 12u32) | (level << 14u32) | (trigger << 15u32)
        | (shorthand_code(cmd.destination_shorthand) << 18u32)
}

impl InterruptCommand {
    /// The low half of the interrupt command register that sends this command, built
    /// on the register's current value `initial_val`.
    pub fn to_u32(&self, initial_val: u32) -> (r: u32)
        ensures
            r == icr_low_value(*self, initial_val),
    {
        let mut ret = initial_val;
        let delivery_mode: u32 = match self.delivery_mode {
            DeliveryMode::Fixed => 0b000,
            DeliveryMode::LowestPriority => 0b001,
            DeliveryMode::Smi => 0b010,
            DeliveryMode::Nmi => 0b100,
            DeliveryMode::Init => 0b101,
            DeliveryMode::StartUp => 0b110,
        };
        let destination_mode: u32 = match self.destination_mode {
            DestinationMode::Physical => 0,
            DestinationMode::Logical => 1,
        };
        let delivery_status: u32 = match self.delivery_status {
            DeliveryStatus::Idle => 0,
            DeliveryStatus::Pending => 1,
        };
        let level: u32 = match self.level {
            Level::Deassert => 0,
            Level::Assert => 1,
        };
        let trigger_mode: u32 = match self.trigger_mode {
            TriggerMode::Edge => 0,
            TriggerMode::Level => 1,
        };
        let destination_shorthand: u32 = match self.destination_shorthand {
            DestinationShorthand::NoShorthand => 0b00,
            DestinationShorthand::OnlySelf => 0b01,
            DestinationShorthand::AllIncludingSelf => 0b10,
            DestinationShorthand::AllExcludingSelf => 0b11,
        };
        let vector = self.vector as u32;
        ret.set_bits(0, 8, vector);
        ret.set_bits(8, 3, delivery_mode);
        ret.set_bits(11, 1, destination_mode);
        ret.set_bits(12, 1, delivery_status);
        ret.set_bits(14, 1, level);
        ret.set_bits(15, 1, trigger_mode);
        ret.set_bits(18, 2, destination_shorthand);
        let x = initial_val;
        assert(with_field_u32(
            with_field_u32(
                with_field_u32(
                    with_field_u32(
                        with_field_u32(
                            with_field_u32(with_field_u32(x, 0, 8, vector), 8, 3, delivery_mode),
                            11,
                            1,
                            destination_mode,
                        ),
                        12,
                        1,
                        delivery_status,
                    ),
                    14,
                    1,
                    level,
                ),
                15,
                1,
                trigger_mode,
            ),
            18,
            2,
            destination_shorthand,
        ) == (x & !0x000c_dfffu32) | vector | (delivery_mode << 8u32) | (destination_mode
            << 11u32) | (delivery_status << 12u32) | (level << 14u32) | (trigger_mode << 15u32)
            | (destination_shorthand << 18u32)) by (bit_vector)
            requires
                vector < 256,
                delivery_mode < 8,
                destination_mode < 2,
                delivery_status < 2,
                level < 2,
                trigger_mode < 2,
                destination_shorthand < 4,
        ;
        ret
    }
}

/// The command that asserts INIT on a processor.
pub fn init_ipi_command() -> (r: InterruptCommand)
    ensures
        r == (InterruptCommand {
            delivery_mode: DeliveryMode::Init,
            delivery_status: DeliveryStatus::Idle,
            destination_shorthand: DestinationShorthand::NoShorthand,
            destination_mode: DestinationMode::Physical,
            level: Level::Assert,
            trigger_mode: TriggerMode::Level,
            vector: 0x00,
        }),
{
    InterruptCommand {
        delivery_mode: DeliveryMode::Init,
        delivery_status: DeliveryStatus::Idle,
        destination_shorthand: DestinationShorthand::NoShorthand,
        destination_mode: DestinationMode::Physical,
        level: Level::Assert,
        trigger_mode: TriggerMode::Level,
        vector: 0x00,
    }
}

/// The command that deasserts INIT on a processor.
pub fn deinit_ipi_command() -> (r: InterruptCommand)
    ensures
        r == (InterruptCommand {
            delivery_mode: DeliveryMode::Init,
            delivery_status: DeliveryStatus::Idle,
            destination_shorthand: DestinationShorthand::NoShorthand,
            destination_mode: DestinationMode::Physical,
            level: Level::Deassert,
            trigger_mode: TriggerMode::Level,
            vector: 0x00,
        }),
{
    InterruptCommand {
        delivery_mode: DeliveryMode::Init,
        delivery_status: DeliveryStatus::Idle,
        destination_shorthand: DestinationShorthand::NoShorthand,
        destination_mode: DestinationMode::Physical,
        level: Level::Deassert,
        trigger_mode: TriggerMode::Level,
        vector: 0x00,
    }
}

/// The start-up command that makes a processor run the trampoline at page 8.
pub fn startup_ipi_command() -> (r: InterruptCommand)
    ensures
        r == (InterruptCommand {
            delivery_status: DeliveryStatus::Idle,
            level: Level::Deassert,
            destination_mode: DestinationMode::Physical,
            destination_shorthand: DestinationShorthand::NoShorthand,
            trigger_mode: TriggerMode::Edge,
            delivery_mode: DeliveryMode::StartUp,
            vector: 0x8,
        }),
{
    InterruptCommand {
        delivery_status: DeliveryStatus::Idle,
        level: Level::Deassert,
        destination_mode: DestinationMode::Physical,
        destination_shorthand: DestinationShorthand::NoShorthand,
        trigger_mode: TriggerMode::Edge,
        delivery_mode: DeliveryMode::StartUp,
        vector: 0x8,
    }
}

/// The command that raises interrupt `interrupt_num` on a processor.
pub fn ipi_command(interrupt_num: u8) -> (r: InterruptCommand)
    ensures
        r == (InterruptCommand {
            delivery_status: DeliveryStatus::Idle,
            level: Level::Deassert,
            destination_mode: DestinationMode::Physical,
            destination_shorthand: DestinationShorthand::NoShorthand,
            trigger_mode: TriggerMode::Edge,
            delivery_mode: DeliveryMode::Fixed,
            vector: interrupt_num,
        }),
{
    InterruptCommand {
        delivery_status: DeliveryStatus::Idle,
        level: Level::Deassert,
        destination_mode: DestinationMode::Physical,
        destination_shorthand: DestinationShorthand::NoShorthand,
        trigger_mode: TriggerMode::Edge,
        delivery_mode: DeliveryMode::Fixed,
        vector: interrupt_num,
    }
}

/// The processors to start, of those whose APIC ids are `apic_ids`: every one but the
/// processor running this (`bsp_id`) and those with an id of `max_num_cpus` or more,
/// which the trampoline has no stack for. They keep their order.
pub fn cpus_to_boot(apic_ids: &[u8], bsp_id: u8, max_num_cpus: u32) -> (r: Vec<u8>)
    ensures
        r@ == apic_ids@.filter(|id: u8| (id as u32) < max_num_cpus && id != bsp_id),
{
    let mut r: Vec<u8> = Vec::new();
    let mut i: usize = 0;
    while i < apic_ids.len()
        invariant
            i <= apic_ids@.len(),
            r@ == apic_ids@.take(i as int).filter(
                |id: u8| (id as u32) < max_num_cpus && id != bsp_id,
            ),
        decreases apic_ids@.len() - i,
    {
        let apic_id = apic_ids[i];
        proof {
            assert(apic_ids@.take(i + 1).drop_last() =~= apic_ids@.take(i as int));
            apic_ids@.take(i as int).lemma_filter_push(
                apic_id,
                |id: u8| (id as u32) < max_num_cpus && id != bsp_id,
            );
            assert(apic_ids@.take(i as int).push(apic_id) =~= apic_ids@.take(i + 1));
        }
        if (apic_id as u32) < max_num_cpus && apic_id != bsp_id {
            r.push(apic_id);
        }
        i += 1;
    }
    proof {
        assert(apic_ids@.take(apic_ids@.len() as int) =~= apic_ids@);
    }
    r
}

} // verus!

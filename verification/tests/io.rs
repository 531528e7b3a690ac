use streamos::interrupts::IrqId;
use streamos::io::io_allocator::{ranges_overlap, IoAllocator, IoOffset, OffsetOutOfRange};
use streamos::io::pci::{
    bus_mastering_enabled, config_address, mmap_range_from_bar, register_offset, Pci,
    PciAddress, PciDevice,
};
use streamos::io::port_manager::PortManager;
use streamos::io::ps2::{config_reg_value, output_full, Ps2Keyboard};
use streamos::io::rtc::{
    data_format_value, date_time_register_numbers, enable_interrupts_value, in_progress_set,
    interrupt_rate_value, select_reg_value, DateTime, Rtc, RtcInitError,
};
use streamos::io::serial::{
    check_loopback, is_transmit_ready, serial_init_writes, serial_setup_step, Serial, SerialInitError,
    SerialSetupAction,
};

#[test]
fn test_overlapping_ranges() {
    assert!(ranges_overlap(&(0..=5), &(5..=10)));
    assert!(ranges_overlap(&(0..=5), &(4..=5)));
    assert!(!ranges_overlap(&(0..=5), &(6..=10)));
    assert!(!ranges_overlap(&(6..=10), &(0..=5)));
}

#[test]
fn test_verify_offset() {
    let mut allocator = IoAllocator::new();
    let range = allocator.request_io_range(50, 24).unwrap();

    assert!(range.verify_offset(IoOffset(23), 1).is_ok());
    assert!(range.verify_offset(IoOffset(24), 1).is_err());

    assert!(range.verify_offset(IoOffset(23), 2).is_err());
    assert!(range.verify_offset(IoOffset(21), 4).is_err());
    assert!(range.verify_offset(IoOffset(20), 4).is_ok());
}

#[test]
fn offset_error_names_the_access() {
    let mut allocator = IoAllocator::new();
    let range = allocator.request_io_range(0x100, 4).unwrap();
    let err = range.verify_offset(IoOffset(3), 2).unwrap_err();
    assert!(err == OffsetOutOfRange { value: 3, num_bytes: 2, length: 4 });
    assert_eq!(range.port(IoOffset(2), 1).ok(), Some(0x102));
}

#[test]
fn a_range_is_handed_out_once() {
    let mut allocator = IoAllocator::new();
    assert!(allocator.request_io_range(0x3f8, 8).is_some());
    assert!(allocator.request_io_range(0x3f8, 8).is_none());
    assert!(allocator.request_io_range(0x3ff, 1).is_none());
    assert!(allocator.request_io_range(0x400, 1).is_some());
}

#[test]
fn test_in_progress_flag() {
    assert!(in_progress_set(1 << 7));
    assert!(!in_progress_set(0x34));
    assert!(in_progress_set((1 << 7) | 0x34));
}

#[test]
fn rtc_register_values() {
    assert_eq!(select_reg_value(true, 0x0a), 0x0a);
    assert_eq!(select_reg_value(false, 0x0a), 0x8a);
    assert_eq!(interrupt_rate_value(0xa6), 0xa1);
    assert_eq!(data_format_value(0x00), 0x06);
    assert_eq!(enable_interrupts_value(0x02), 0x42);
    assert_eq!(
        date_time_register_numbers(),
        [0x00, 0x02, 0x04, 0x06, 0x07, 0x08, 0x09, 0x32]
    );
}

#[test]
fn date_time_survives_the_registers() {
    let dt = DateTime {
        seconds: 1,
        minutes: 2,
        hours: 3,
        weekday: 4,
        day: 5,
        month: 6,
        year: 7,
        century: 20,
    };
    let values = dt.register_values();
    assert_eq!(values, [1, 2, 3, 4, 5, 6, 7, 20]);
    assert!(DateTime::from_register_values(&values) == dt);
}

#[test]
fn rtc_and_serial_take_their_ports() {
    let mut allocator = IoAllocator::new();
    assert!(Rtc::new(&mut allocator).is_ok());
    assert!(matches!(Rtc::new(&mut allocator), Err(RtcInitError::RequestIoRange)));
    assert!(Serial::new(&mut allocator).is_ok());
    assert!(matches!(Serial::new(&mut allocator), Err(SerialInitError::IoRangeReserved)));
}

#[test]
fn serial_checks() {
    assert!(matches!(check_loopback(0xAE), Ok((4, 0x0F))));
    assert!(matches!(check_loopback(0x00), Err(SerialInitError::Loopback)));
    assert!(is_transmit_ready(0x20));
    assert!(!is_transmit_ready(0xdf));
}

#[test]
fn port_manager_hands_out_each_port_once() {
    let mut ports = PortManager::new();
    let port = ports.request_port(0x60).unwrap();
    assert_eq!(port.addr(), 0x60);
    assert!(ports.request_port(0x60).is_none());
    assert!(ports.request_port(0x61).is_some());
}

#[test]
fn ps2_keyboard_ports() {
    let mut allocator = IoAllocator::new();
    assert!(Ps2Keyboard::new(&mut allocator).is_some());
    assert!(Ps2Keyboard::new(&mut allocator).is_none());
    assert!(output_full(0x01));
    assert!(!output_full(0xfe));
    assert_eq!(config_reg_value(0x42), 0x01);
    assert_eq!(config_reg_value(0xff), 0xbd);
}

#[test]
fn pci_config_address_layout() {
    assert_eq!(config_address(0, 0, 0, 0), 0x8000_0000);
    assert_eq!(config_address(1, 2, 3, 0x10), 0x8001_1310);
    assert_eq!(config_address(0xff, 0x1f, 7, 0xfc), 0x80ff_fffc);
    assert_eq!(register_offset(15), 60);
    assert_eq!(bus_mastering_enabled(0x0003), 0x0007);
}

#[test]
fn pci_walk_and_devices() {
    let mut allocator = IoAllocator::new();
    let mut pci = Pci::new(&mut allocator).ok().unwrap();
    assert!(Pci::new(&mut allocator).is_err());
    let mut walk = pci.devices();
    assert_eq!(walk.current().map(|a| (a.bus, a.slot, a.function)), Some((0, 0, 0)));
    assert!(walk.probe(0xffff_ffff).is_none());
    let found = walk.probe(0x8139_10ec).unwrap();
    assert_eq!((found.bus, found.slot, found.function), (0, 0, 1));
    assert!(!pci.is_allocated(&found));
    match found.upgrade(&mut pci, 0x0000_0000) {
        Ok(PciDevice::General(dev)) => {
            assert_eq!(dev.id(0x8139_10ec), (0x10ec, 0x8139));
            let id = dev.interface_id(0x0200_0010);
            assert_eq!((id.class, id.subclass, id.interface, id.revision), (2, 0, 0, 0x10));
            assert_eq!(dev.find_io_base(&[0, 0xc001, 0, 0, 0, 0]), Some(0xc000));
            assert_eq!(dev.find_io_base(&[0, 0, 0, 0, 0, 0]), None);
            assert_eq!(dev.find_mmap_bar(&[0xc001, 0xfebf_1000, 0, 0, 0, 0]), Some(1));
            assert!(matches!(dev.get_irq_num(0x0000_010b), Ok(IrqId::Pic2(3))));
            assert!(matches!(dev.get_irq_num(0x0000_0105), Ok(IrqId::Pic1(5))));
            assert!(dev.get_irq_num(0x0000_0120).is_err());
        }
        _ => panic!("expected a general device"),
    }
    assert!(pci.is_allocated(&PciAddress { bus: 0, slot: 0, function: 1 }));
    let bridge = PciAddress { bus: 0, slot: 1, function: 0 };
    assert!(matches!(bridge.upgrade(&mut pci, 0x0001_0000), Ok(PciDevice::PciPciBridge)));
    let odd = PciAddress { bus: 0, slot: 2, function: 0 };
    assert!(odd.upgrade(&mut pci, 0x0005_0000).is_err());
}

#[test]
fn pci_walk_covers_every_address_once() {
    let mut allocator = IoAllocator::new();
    let pci = Pci::new(&mut allocator).ok().unwrap();
    let mut walk = pci.devices();
    let mut count = 0u32;
    while walk.current().is_some() {
        walk.probe(0xffff_ffff);
        count += 1;
    }
    assert_eq!(count, 65536);
}

#[test]
fn mmap_range_from_probe() {
    let range = mmap_range_from_bar(0xfebf_1008, 0xffff_ff00);
    assert_eq!(range.start, 0xfebf_1000);
    assert_eq!(range.length, 256);
}

#[test]
fn device_ports_stay_taken() {
    let mut allocator = IoAllocator::new();
    assert!(Serial::new(&mut allocator).is_ok());
    assert!(allocator.request_io_range(0x3f8, 1).is_none());
    assert!(allocator.request_io_range(0x3ff, 1).is_none());
    assert!(allocator.request_io_range(0x400, 1).is_some());
    assert!(Ps2Keyboard::new(&mut allocator).is_some());
    assert!(allocator.request_io_range(0x60, 1).is_none());
    assert!(allocator.request_io_range(0x64, 1).is_none());
}

/// Runs the setup steps against a chip that echoes `echo` in loopback mode and
/// returns the writes made and how the setup ended.
fn run_serial_setup(echo: u8) -> (Vec<(u16, u8)>, Result<(), SerialInitError>) {
    let mut writes = Vec::new();
    let mut read_back = None;
    let mut step = 0;
    loop {
        match serial_setup_step(step, read_back) {
            SerialSetupAction::Write(o, v) => writes.push((o, v)),
            SerialSetupAction::ReadBack => read_back = Some(echo),
            SerialSetupAction::Done => return (writes, Ok(())),
            SerialSetupAction::Fail(e) => return (writes, Err(e)),
        }
        step += 1;
    }
}

#[test]
fn serial_setup_sequence() {
    let (writes, outcome) = run_serial_setup(0xAE);
    assert!(outcome.is_ok());
    let mut expected = serial_init_writes();
    expected.push((4, 0x0F));
    assert_eq!(writes, expected);
    assert_eq!(writes.len(), 10);

    let (writes, outcome) = run_serial_setup(0x12);
    assert!(matches!(outcome, Err(SerialInitError::Loopback)));
    assert_eq!(writes, serial_init_writes());
}

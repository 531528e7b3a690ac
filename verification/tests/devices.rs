use streamos::interrupts::{
    build_gate_descriptors, end_of_interrupt, generate_interrupt_stub, interrupt_number,
    irq_from_line, pic_remap_writes, unmask_line, EndOfInterrupt, GateDescriptor,
    GateDescriptorNewArgs, IrqId, PicPort, PicWrite,
};
use streamos::io::pci::MmapRange;
use streamos::mouse::{find_appropriate_endpoint, is_hid_boot_mouse};
use streamos::multiprocessing::{
    cpus_to_boot, deinit_ipi_command, enable_interrupts_value, init_ipi_command, ipi_command,
    ipi_delivered, select_ap, startup_ipi_command, Apic,
};
use streamos::process::{get_min_max_mapped_address, run_loaded_process, run_process, ElfInfo, Segment, PT_LOAD};
use streamos::rng::Rng;
use streamos::rtl8139::{
    append_crc_value, check_mmap_range, enable_transmit_receive_value, generate_receive_buffer,
    get_packet, increment_capr, loopback_value, packet_available, receive_buffer_size_value,
    receive_configuration_value, reset_value, transmission_done, transmit_status_value,
    Rtl8139InitError, Transmitter, RECEIVE_BUFFER_SIZE,
};
use streamos::usb::{
    generate_get_configuration_descriptor, generate_get_device_descriptor, generate_set_address,
    generate_set_configuration, ConfigurationDescriptors, EndpointAddress, Pid, TransferType,
    UsbDescriptor, UsbEndpointDescriptor, UsbInterfaceDescriptor, UsbPacket,
    UsbSetupRequestParams, UsbSetupRequestValue,
};

#[test]
fn rtl8139_register_values() {
    assert_eq!(reset_value(0x01), 0x11);
    assert_eq!(receive_buffer_size_value(0), 0x1800);
    assert_eq!(enable_transmit_receive_value(0x10), 0x1c);
    assert_eq!(loopback_value(0x1), 0x6_0001);
    assert_eq!(append_crc_value(0), 0x1_0000);
    assert_eq!(receive_configuration_value(0xffff_ffff), 0xffff_ffca);
    assert_eq!(transmit_status_value(0xffff_ffff, 0x5dc), 0xffff_d5dc);
    assert!(transmission_done(0x2000));
    assert!(!transmission_done(0xdfff));
}

#[test]
fn rtl8139_mmap_range_must_be_256_bytes() {
    assert!(check_mmap_range(&MmapRange { start: 0xfeb0_0000, length: 256 }).is_ok());
    match check_mmap_range(&MmapRange { start: 0xfeb0_0000, length: 128 }) {
        Err(Rtl8139InitError::MmapRangeUnexpected(l)) => assert_eq!(l, 128),
        _ => panic!("expected an unexpected range"),
    }
}

#[test]
fn rtl8139_receive_ring() {
    let mut ring = generate_receive_buffer();
    assert_eq!(ring.len(), RECEIVE_BUFFER_SIZE);
    assert!(ring.iter().all(|b| *b == 0));
    // a packet of 5 bytes right at the start
    ring[0] = 0x01;
    ring[1] = 0x00;
    ring[2] = 5;
    ring[3] = 0;
    ring[4..9].copy_from_slice(b"hello");
    let capr: u16 = 0xfff0;
    // the card writes next at 12: one packet of 12 bytes is waiting
    assert!(packet_available(capr, 12));
    // the card writes next where the driver reads: nothing is waiting
    assert!(!packet_available(capr, 0));
    assert_eq!(get_packet(capr, &ring), b"hello");
    // the length plus 7, rounded down to a multiple of 4: 12 bytes on
    assert_eq!(increment_capr(capr, &ring), 0xfff0u16.wrapping_add(12) & 0xfffc);
}

#[test]
fn rtl8139_transmit_slots_rotate() {
    let mut t = Transmitter::new();
    assert!(t.registers_for(59).is_err());
    assert_eq!(t.registers_for(60).ok(), Some((0x20, 0x10)));
    for _ in 0..3 {
        t.advance();
    }
    assert_eq!(t.registers_for(1500).ok(), Some((0x2c, 0x1c)));
    t.advance();
    assert_eq!(t.registers_for(60).ok(), Some((0x20, 0x10)));
}

#[test]
fn apic_registers_and_commands() {
    let apic = Apic::new(0xfee0_0000);
    assert_eq!(apic.icr_low(), 0xfee0_0300);
    assert_eq!(apic.icr_high(), 0xfee0_0310);
    assert_eq!(apic.eoi(), 0xfee0_00b0);
    assert_eq!(apic.siv(), 0xfee0_00f0);
    assert_eq!(enable_interrupts_value(0xff), 0x1ff);
    assert_eq!(select_ap(3, 0x00ab_cdef), 0x03ab_cdef);
    assert_eq!(select_ap(0, 0xffff_ffff), 0x00ff_ffff);
    assert!(ipi_delivered(0));
    assert!(!ipi_delivered(1 << 12));

    assert_eq!(init_ipi_command().to_u32(0), 0xc500);
    assert_eq!(deinit_ipi_command().to_u32(0), 0x8500);
    assert_eq!(startup_ipi_command().to_u32(0), 0x0608);
    assert_eq!(ipi_command(0x90).to_u32(0), 0x0090);
    // bits outside the command keep their value
    assert_eq!(ipi_command(0x90).to_u32(0xfff0_0000), 0xfff0_0090);
}

#[test]
fn processors_to_start() {
    assert_eq!(cpus_to_boot(&[0, 1, 2, 3, 9], 0, 4), vec![1, 2, 3]);
    assert_eq!(cpus_to_boot(&[2, 0, 1], 2, 8), vec![0, 1]);
    assert!(cpus_to_boot(&[], 0, 8).is_empty());
}

#[test]
fn interrupt_gates_and_stubs() {
    let g = GateDescriptor::new(GateDescriptorNewArgs {
        offset: 0x1234_5678,
        segment_selector: 0x08,
        gate_type: 0b1111,
        dpl: 0,
        p: true,
    });
    assert_eq!(g.0, 0x1234_8f00_0008_5678);
    let table = build_gate_descriptors(&[0x1000, 0x2000]);
    assert_eq!(table.len(), 2);
    assert_eq!(table[1].0, 0x0000_8f00_0008_2000);

    let stub = generate_interrupt_stub(0x21, 0xdead_beef);
    assert_eq!(
        stub,
        [
            0x55, 0x89, 0xe5, 0x60, 0x6a, 0x21, 0xb8, 0xef, 0xbe, 0xad, 0xde, 0xff, 0xd0, 0x83,
            0xc4, 0x04, 0x61, 0x89, 0xec, 0x5d, 0xcf
        ]
    );
}

#[test]
fn interrupt_lines_and_acknowledgement() {
    assert_eq!(interrupt_number(IrqId::Internal(0x90)), 0x90);
    assert_eq!(interrupt_number(IrqId::Pic1(1)), 0x41);
    assert_eq!(interrupt_number(IrqId::Pic2(3)), 0x4b);
    assert!(irq_from_line(11) == Some(IrqId::Pic2(3)));
    assert!(irq_from_line(5) == Some(IrqId::Pic1(5)));
    assert!(irq_from_line(16).is_none());
    assert_eq!(unmask_line(0xff, 2), 0xfb);
    assert_eq!(unmask_line(0xfb, 2), 0xfb);
    assert!(end_of_interrupt(0x41, true) == EndOfInterrupt::Pic1);
    assert!(end_of_interrupt(0x4b, true) == EndOfInterrupt::Pic2ThenPic1);
    assert!(end_of_interrupt(0x90, true) == EndOfInterrupt::Nothing);
    assert!(end_of_interrupt(0x41, false) == EndOfInterrupt::Apic);
    let writes = pic_remap_writes(0x40, 0x48, 0xfb, 0xff);
    assert_eq!(writes.len(), 10);
    assert!(writes[0] == PicWrite { port: PicPort::Pic1Command, value: 0x11 });
    assert!(writes[3] == PicWrite { port: PicPort::Pic2Data, value: 0x48 });
    assert!(writes[9] == PicWrite { port: PicPort::Pic2Data, value: 0xff });
}

#[test]
fn usb_setup_packets() {
    let p = UsbPacket::setup(UsbSetupRequestParams {
        pid: Pid::Setup,
        address: 3,
        endpoint: 0,
        data_toggle: false,
        request_type: 0x80,
        request: UsbSetupRequestValue::GetDescriptor,
        value: 0x0100,
        index: 0,
        length: 18,
    });
    assert_eq!(p.data, vec![0x80, 6, 0x00, 0x01, 0, 0, 18, 0]);
    assert_eq!(p.address, 3);

    let dev = generate_get_device_descriptor(4);
    assert_eq!(dev.len(), 3);
    assert!(dev[0].pid == Pid::Setup && dev[1].pid == Pid::In && dev[2].pid == Pid::Out);
    assert_eq!(dev[0].data, vec![0x80, 6, 0, 1, 0, 0, 18, 0]);
    assert_eq!(dev[1].data.len(), 18);

    let conf = generate_get_configuration_descriptor(4, 34);
    assert_eq!(conf[0].data, vec![0x80, 6, 0, 2, 0, 0, 34, 0]);
    assert_eq!(conf[1].data.len(), 34);

    let set = generate_set_address(7);
    assert_eq!(set.len(), 2);
    assert_eq!(set[0].address, 0);
    assert_eq!(set[0].data, vec![0, 5, 7, 0, 0, 0, 0, 0]);
    assert!(set[1].pid == Pid::In);

    let cfg = generate_set_configuration(7, 1);
    assert_eq!(cfg[0].address, 7);
    assert_eq!(cfg[0].data, vec![0, 9, 1, 0, 0, 0, 0, 0]);
}

/// A configuration with a keyboard interface, then a boot mouse interface whose
/// first endpoint is a bulk OUT and second an interrupt IN on endpoint 2.
fn mouse_configuration() -> Vec<u8> {
    let mut v = vec![9, 2, 50, 0, 2, 1, 0, 0xa0, 50];
    v.extend_from_slice(&[9, 4, 0, 0, 1, 3, 1, 1, 0]);
    v.extend_from_slice(&[7, 5, 0x81, 3, 8, 0, 10]);
    v.extend_from_slice(&[9, 33, 0x11, 1, 0, 1, 34, 52, 0]);
    v.extend_from_slice(&[9, 4, 1, 0, 2, 3, 1, 2, 0]);
    v.extend_from_slice(&[7, 5, 0x01, 2, 64, 0, 0]);
    v.extend_from_slice(&[7, 5, 0x82, 3, 4, 0, 10]);
    v
}

#[test]
fn usb_descriptors_walk() {
    let conf = ConfigurationDescriptors(mouse_configuration());
    let mut it = conf.iter();
    let mut kinds = Vec::new();
    while let Some(d) = it.next() {
        kinds.push(match d {
            UsbDescriptor::Device(_) => 1,
            UsbDescriptor::Configuration(c) => {
                assert_eq!(c.total_length(), 50);
                assert_eq!(c.num_interfaces(), 2);
                2
            }
            UsbDescriptor::Interface(_) => 4,
            UsbDescriptor::Endpoint(_) => 5,
            UsbDescriptor::Unknown(t) => t,
        });
    }
    assert_eq!(kinds, vec![2, 4, 5, 33, 4, 5, 5]);
}

#[test]
fn usb_endpoint_fields() {
    let e = UsbEndpointDescriptor::new(&[7, 5, 0x82, 3, 0x40, 0x01, 10]);
    assert!(e.endpoint_address() == EndpointAddress::In(2));
    assert!(e.transfer_type() == TransferType::Interrupt);
    assert_eq!(e.max_packet_size(), 0x140);
    assert_eq!(e.interval(), 10);
    let out = UsbEndpointDescriptor::new(&[7, 5, 0x01, 2, 64, 0, 0]);
    assert!(out.endpoint_address() == EndpointAddress::Out(1));
    assert!(out.transfer_type() == TransferType::Bulk);
}

#[test]
fn boot_mouse_endpoint() {
    assert!(is_hid_boot_mouse(&UsbInterfaceDescriptor::new(&[9, 4, 1, 0, 2, 3, 1, 2, 0])));
    assert!(!is_hid_boot_mouse(&UsbInterfaceDescriptor::new(&[9, 4, 0, 0, 1, 3, 1, 1, 0])));
    let conf = ConfigurationDescriptors(mouse_configuration());
    assert_eq!(find_appropriate_endpoint(&conf), Some(2));
    let keyboard_only = ConfigurationDescriptors(mouse_configuration()[..34].to_vec());
    assert_eq!(find_appropriate_endpoint(&keyboard_only), None);
}

fn push16(v: &mut Vec<u8>, x: u16) {
    v.extend_from_slice(&x.to_le_bytes());
}

fn push32(v: &mut Vec<u8>, x: u32) {
    v.extend_from_slice(&x.to_le_bytes());
}

fn push64(v: &mut Vec<u8>, x: u64) {
    v.extend_from_slice(&x.to_le_bytes());
}

/// A little endian ELF64 file: two loadable segments, the first with four more
/// bytes in memory than in the file, and a note segment.
fn program() -> Vec<u8> {
    let mut v = vec![0x7f, b'E', b'L', b'F', 2, 1, 1, 0, 0, 0, 0, 0, 0, 0, 0, 0];
    push16(&mut v, 2); // executable
    push16(&mut v, 0x3e);
    push32(&mut v, 1);
    push64(&mut v, 0x40_0004); // entry
    push64(&mut v, 64); // program headers
    push64(&mut v, 0); // no section headers
    push32(&mut v, 0);
    push16(&mut v, 64);
    push16(&mut v, 56);
    push16(&mut v, 3);
    push16(&mut v, 0);
    push16(&mut v, 0);
    push16(&mut v, 0);
    let data_at = 64 + 3 * 56;
    let phdr = |v: &mut Vec<u8>, typ: u32, off: u64, vaddr: u64, filesz: u64, memsz: u64| {
        push32(v, typ);
        push32(v, 5);
        push64(v, off);
        push64(v, vaddr);
        push64(v, vaddr);
        push64(v, filesz);
        push64(v, memsz);
        push64(v, 0x1000);
    };
    phdr(&mut v, 1, data_at, 0x40_0000, 4, 8);
    phdr(&mut v, 4, 0, 0x10, 0, 0x100);
    phdr(&mut v, 1, data_at + 4, 0x40_0010, 2, 4);
    v.extend_from_slice(&[0xde, 0xad, 0xbe, 0xef, 0x11, 0x22]);
    v
}

#[test]
fn elf_program_is_laid_out() {
    let p = run_process(&program()).unwrap();
    assert_eq!(p.entry_offset, 4);
    let mut expected = vec![0u8; 0x14];
    expected[0..4].copy_from_slice(&[0xde, 0xad, 0xbe, 0xef]);
    expected[0x10] = 0x11;
    expected[0x11] = 0x22;
    assert_eq!(p.image, expected);
}

#[test]
fn elf_rejects_what_cannot_run() {
    assert!(run_process(b"not an elf file at all, sorry").is_none());
    let mut truncated = program();
    truncated.truncate(64 + 3 * 56 + 2);
    assert!(run_process(&truncated).is_none());
    let mut entry_below = program();
    entry_below[24..32].copy_from_slice(&0x10u64.to_le_bytes());
    assert!(run_process(&entry_below).is_none());
}

#[test]
fn mapped_address_range() {
    let seg = |p_type: u32, p_vaddr: u64, p_memsz: u64| Segment {
        p_type,
        p_offset: 0,
        p_vaddr,
        p_filesz: 0,
        p_memsz,
    };
    assert_eq!(get_min_max_mapped_address(&[]), (u64::MAX, 0));
    assert_eq!(
        get_min_max_mapped_address(&[
            seg(PT_LOAD, 0x2000, 0x10),
            seg(4, 0x10, 0x100000),
            seg(PT_LOAD, 0x1000, 0x10)
        ]),
        (0x1000, 0x2010)
    );
}

#[test]
fn rng_draws_differ() {
    let mut rng = Rng::new(7);
    let a = rng.u64();
    let b = rng.u64();
    let c = rng.u64();
    assert!(a != b || b != c);
}

#[test]
fn rng_draws_until_counter_top() {
    assert!(Rng::new(0).can_draw());
    assert!(Rng::new(u64::MAX - 1).can_draw());
    assert!(!Rng::new(u64::MAX).can_draw());
    let mut rng = Rng::new(u64::MAX - 1);
    rng.u64();
    assert!(!rng.can_draw());
}

#[test]
fn loaded_program_is_laid_out() {
    let file = [0u8, 0, 0xaa, 0xbb, 0xcc];
    let seg = Segment { p_type: PT_LOAD, p_offset: 2, p_vaddr: 0x1000, p_filesz: 3, p_memsz: 5 };
    let info = ElfInfo { entry: 0x1001, segments: Some(vec![seg]) };
    let p = run_loaded_process(&file, info).unwrap();
    assert_eq!(p.entry_offset, 1);
    assert_eq!(p.image, vec![0xaa, 0xbb, 0xcc, 0, 0]);
    assert!(run_loaded_process(&file, ElfInfo { entry: 0x1001, segments: None }).is_none());
    let past_file = Segment { p_type: PT_LOAD, p_offset: 4, p_vaddr: 0x1000, p_filesz: 3, p_memsz: 5 };
    assert!(run_loaded_process(&file, ElfInfo { entry: 0x1001, segments: Some(vec![past_file]) }).is_none());
    assert!(run_loaded_process(&file, ElfInfo { entry: 0xfff, segments: Some(vec![seg]) }).is_none());
}

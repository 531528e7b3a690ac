use streamos::acpi::{AcpiSdtHeader, AcpiTable, MadtEntry, Rsdp, Rsdt};
use streamos::multiboot::{FrameBufferInfoError, MultibootInfo};
use streamos::multiboot2::{
    Multiboot2, Tag, MULTIBOOT2_MAGIC, TAG_FRAMEBUFFER, TAG_IMAGE_LOAD, TAG_MEMORY_MAP, TAG_RSDP,
};

fn push32(v: &mut Vec<u8>, x: u32) {
    v.extend_from_slice(&x.to_le_bytes());
}

fn push64(v: &mut Vec<u8>, x: u64) {
    v.extend_from_slice(&x.to_le_bytes());
}

fn pad8(v: &mut Vec<u8>) {
    while v.len() % 8 != 0 {
        v.push(0);
    }
}

fn rsdp_bytes() -> Vec<u8> {
    let mut r = b"RSD PTR ".to_vec();
    r.push(0); // checksum, set below
    r.extend_from_slice(b"BOCHS ");
    r.push(0); // revision
    push32(&mut r, 0x7fe1_4d2a);
    let sum: u8 = r.iter().fold(0u8, |a, b| a.wrapping_add(*b));
    r[8] = 0u8.wrapping_sub(sum);
    r
}

/// Boot information with a command line tag (skipped), the RSDP, a framebuffer and a
/// memory map of two entries.
fn boot_info() -> Vec<u8> {
    let mut v = Vec::new();
    push32(&mut v, 0); // total size, set below
    push32(&mut v, 0);

    // command line tag, type 1, size 9
    push32(&mut v, 1);
    push32(&mut v, 9);
    v.push(b'x');
    pad8(&mut v);

    // rsdp tag
    push32(&mut v, TAG_RSDP);
    push32(&mut v, 8 + 20);
    v.extend_from_slice(&rsdp_bytes());
    pad8(&mut v);

    // framebuffer tag
    push32(&mut v, TAG_FRAMEBUFFER);
    push32(&mut v, 38);
    push64(&mut v, 0xfd00_0000);
    push32(&mut v, 4096); // pitch
    push32(&mut v, 1024); // width
    push32(&mut v, 768); // height
    v.push(32); // bpp
    v.push(1); // type
    v.push(0);
    v.push(0);
    v.extend_from_slice(&[16, 8, 8, 8, 0, 8]); // red, green, blue position and size
    pad8(&mut v);

    // memory map tag
    push32(&mut v, TAG_MEMORY_MAP);
    push32(&mut v, 16 + 2 * 24);
    push32(&mut v, 24);
    push32(&mut v, 0);
    push64(&mut v, 0);
    push64(&mut v, 0x9fc00);
    push32(&mut v, 1);
    push32(&mut v, 0);
    push64(&mut v, 0x100000);
    push64(&mut v, 0x7ee0000);
    push32(&mut v, 1);
    push32(&mut v, 0);

    // end tag
    push32(&mut v, 0);
    push32(&mut v, 8);
    let total = v.len() as u32;
    v[0..4].copy_from_slice(&total.to_le_bytes());
    v
}

#[test]
fn multiboot2_tags_are_walked_in_order() {
    let info = boot_info();
    let mb = Multiboot2::new(MULTIBOOT2_MAGIC, &info);
    let mut it = mb.tags();
    assert!(it.next() == Some(Tag::Rsdp(24)));
    assert!(it.next() == Some(Tag::FrameBufferInfo(56)));
    assert!(it.next() == Some(Tag::MemoryMap(96)));
    assert!(it.next() == None);
    assert_eq!(mb.find_tag(TAG_MEMORY_MAP), Some(96));
    assert_eq!(mb.find_tag(TAG_IMAGE_LOAD), None);
}

#[test]
fn multiboot2_rsdp_and_framebuffer() {
    let info = boot_info();
    let mb = Multiboot2::new(MULTIBOOT2_MAGIC, &info);
    let rsdp = mb.get_rsdp().unwrap();
    assert!(rsdp.validate_checksum());
    assert_eq!(rsdp.rsdt_address(), 0x7fe1_4d2a);

    let fb = mb.get_framebuffer_info().unwrap();
    assert_eq!(fb.addr, 0xfd00_0000);
    assert_eq!(fb.pitch, 4096);
    assert_eq!(fb.width, 1024);
    assert_eq!(fb.height, 768);
    assert_eq!(fb.bytes_per_pix, 4);
    assert_eq!(fb.color_size, 8);
    assert_eq!(fb.red_offset, 2);
    assert_eq!(fb.green_offset, 1);
    assert_eq!(fb.blue_offset, 0);
}

#[test]
fn multiboot2_memory_map() {
    let info = boot_info();
    let mb = Multiboot2::new(MULTIBOOT2_MAGIC, &info);
    let mmap = mb.get_mmap_addrs().unwrap();
    assert_eq!(mmap.len(), 2);
    assert_eq!(mmap[0].addr, 0);
    assert_eq!(mmap[0].len, 0x9fc00);
    assert_eq!(mmap[1].addr, 0x100000);
    assert_eq!(mmap[1].len, 0x7ee0000);
    assert_eq!(mmap[1].typ, 1);
}

#[test]
fn multiboot2_without_tags() {
    let mut info = Vec::new();
    push32(&mut info, 16);
    push32(&mut info, 0);
    push32(&mut info, 0);
    push32(&mut info, 8);
    let mb = Multiboot2::new(MULTIBOOT2_MAGIC, &info);
    assert!(mb.get_rsdp().is_none());
    assert!(mb.get_framebuffer_info().is_none());
    assert!(mb.get_mmap_addrs().is_none());
}

#[test]
fn rsdp_checksum_detects_a_changed_byte() {
    let mut bytes = rsdp_bytes();
    assert!(Rsdp::from_bytes(&bytes).validate_checksum());
    bytes[3] ^= 1;
    assert!(!Rsdp::from_bytes(&bytes).validate_checksum());
}

fn sdt(signature: &[u8; 4], body: &[u8]) -> Vec<u8> {
    let mut v = signature.to_vec();
    push32(&mut v, (36 + body.len()) as u32);
    v.resize(36, 0);
    v.extend_from_slice(body);
    v
}

#[test]
fn rsdt_lists_its_tables() {
    let mut body = Vec::new();
    push32(&mut body, 0x1000);
    push32(&mut body, 0x2000);
    push32(&mut body, 0x3000);
    let table = sdt(b"RSDT", &body);
    let rsdt = Rsdt::new(&table);
    let mut it = rsdt.iter();
    assert_eq!(it.next(), Some(0x1000));
    assert_eq!(it.next(), Some(0x2000));
    assert_eq!(it.next(), Some(0x3000));
    assert_eq!(it.next(), None);
    assert_eq!(it.next(), None);
}

#[test]
fn madt_local_apics() {
    let mut body = Vec::new();
    push32(&mut body, 0xfee0_0000); // local APIC address
    push32(&mut body, 1); // flags
    body.extend_from_slice(&[0, 8, 0, 0, 1, 0, 0, 0]);
    body.extend_from_slice(&[0, 8, 1, 1, 1, 0, 0, 0]);
    body.extend_from_slice(&[1, 12, 0, 0, 0, 0, 0xc0, 0xfe, 0, 0, 0, 0]);
    let table = sdt(b"APIC", &body);
    let header = AcpiSdtHeader::new(&table);
    assert_eq!(header.signature(), *b"APIC");
    assert_eq!(header.length(), table.len() as u32);
    let madt = match header.upgrade() {
        AcpiTable::Madt(m) => m,
        AcpiTable::Unknown(_) => panic!("expected a MADT"),
    };
    assert_eq!(madt.local_apic_addr(), 0xfee0_0000);
    let mut entries = madt.entries();
    assert!(entries.next() == Some(MadtEntry::LocalApic { acpi_id: 0, apic_id: 0, flags: 1 }));
    assert!(entries.next() == Some(MadtEntry::LocalApic { acpi_id: 1, apic_id: 1, flags: 1 }));
    // an I/O APIC record is not reported
    assert!(entries.next() == None);
    assert!(entries.next() == None);
}

#[test]
fn other_tables_are_unknown() {
    let table = sdt(b"FACP", &[]);
    match AcpiSdtHeader::new(&table).upgrade() {
        AcpiTable::Unknown(sig) => assert_eq!(&sig, b"FACP"),
        AcpiTable::Madt(_) => panic!("not a MADT"),
    }
}

fn multiboot_info(flags: u32, typ: u8, bpp: u8, color_info: [u8; 6]) -> MultibootInfo {
    MultibootInfo {
        flags,
        mmap_length: 48,
        mmap_addr: 0x9000,
        framebuffer_addr: 0xe000_0000,
        framebuffer_pitch: 3200,
        framebuffer_width: 800,
        framebuffer_height: 600,
        framebuffer_bpp: bpp,
        framebuffer_type: typ,
        color_info,
    }
}

#[test]
fn multiboot_framebuffer_info() {
    let info = multiboot_info(1 << 12, 1, 32, [16, 8, 8, 8, 0, 8]);
    let fb = info.get_framebuffer_info().ok().unwrap();
    assert_eq!(fb.addr, 0xe000_0000);
    assert_eq!(fb.width, 800);
    assert_eq!(fb.height, 600);
    assert_eq!(fb.pitch, 3200);
    assert_eq!(fb.bytes_per_pix, 4);
    assert_eq!(fb.color_size, 8);
    assert_eq!(fb.blue_offset, 2);
    assert_eq!(fb.red_offset, 1);
    assert_eq!(fb.green_offset, 0);

    let wide = multiboot_info(1 << 12, 1, 32, [16, 8, 8, 10, 0, 9]);
    assert_eq!(wide.get_framebuffer_info().ok().unwrap().color_size, 10);
}

#[test]
fn multiboot_framebuffer_errors() {
    let e = |i: MultibootInfo| i.get_framebuffer_info().err().unwrap();
    assert!(e(multiboot_info(0, 1, 32, [16, 8, 8, 8, 0, 8])) == FrameBufferInfoError::NoFramebuffer);
    assert!(
        e(multiboot_info(1 << 12, 2, 32, [16, 8, 8, 8, 0, 8]))
            == FrameBufferInfoError::InvalidColorType(2)
    );
    assert!(
        e(multiboot_info(1 << 12, 1, 30, [16, 8, 8, 8, 0, 8]))
            == FrameBufferInfoError::BitsPerPixNotByteAligned
    );
    assert!(
        e(multiboot_info(1 << 12, 1, 32, [15, 8, 8, 8, 0, 8]))
            == FrameBufferInfoError::ColorOffsetNotByteAligned
    );
}

#[test]
fn multiboot_memory_map() {
    let info = multiboot_info(1 << 6, 1, 32, [0; 6]);
    let mut mmap = Vec::new();
    push32(&mut mmap, 20);
    push64(&mut mmap, 0);
    push64(&mut mmap, 0x9fc00);
    push32(&mut mmap, 1);
    push32(&mut mmap, 20);
    push64(&mut mmap, 0x100000);
    push64(&mut mmap, 0x1000_0000);
    push32(&mut mmap, 2);
    let entries = info.get_mmap_addrs(&mmap);
    assert_eq!(entries.len(), 2);
    assert_eq!(entries[0].size, 20);
    assert_eq!(entries[0].len, 0x9fc00);
    assert_eq!(entries[1].addr, 0x100000);
    assert_eq!(entries[1].len, 0x1000_0000);
    assert_eq!(entries[1].typ, 2);
}

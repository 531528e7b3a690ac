use streamos::gdt::{gen_access_byte, get_gdt_vals, AccessByteParams, GdtSegment};

#[test]
fn tests_base_extraction() {
    let test_segment = GdtSegment(0x120D00345678BEEF);
    assert_eq!(test_segment.base(), 0x12345678);
    assert_eq!(test_segment.limit(), 0xdbeef);
}

#[test]
fn test_back_and_forth() {
    const BASE: u32 = 0x12345678;
    const LIMIT: u32 = 0xdbeef;
    let segment = GdtSegment::new(BASE, LIMIT, 0x65, 0x4);
    assert_eq!(segment.base(), 0x12345678);
    assert_eq!(segment.limit(), 0xdbeef);
    assert_eq!(segment.access(), 0x65);
    assert_eq!(segment.flags(), 0x4);
}

#[test]
fn test_access_byte_code_segment() {
    let access_byte = gen_access_byte(AccessByteParams {
        p: true,
        dpl: 0,
        s: true,
        e: true,
        dc: false,
        rw: false,
        a: true,
    });
    assert_eq!(access_byte, 0b10011001);
}

#[test]
fn gdt_holds_null_code_and_data_segments() {
    let vals = get_gdt_vals();
    assert_eq!(vals[0].0, 0);
    assert_eq!(vals[1].access(), 0x99);
    assert_eq!(vals[2].access(), 0x93);
    assert_eq!(vals[1].base(), 0);
    assert_eq!(vals[1].limit(), 0xfffff);
    assert_eq!(vals[2].flags(), 0b1100);
}

#[test]
fn limit_keeps_only_twenty_bits() {
    let segment = GdtSegment::new(0, 0xffffffff, 0, 0);
    assert_eq!(segment.limit(), 0xfffff);
}

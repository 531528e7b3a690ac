use streamos::util::bit_manipulation::{GetBits, SetBits};

#[test]
fn test_clear_bit() {
    let mut val = 0xffu8;
    val.set_bit(3, false);
    assert_eq!(val, 0xf7);
}

#[test]
fn test_set_bit() {
    let mut val = 0x00u8;
    val.set_bit(3, true);
    assert_eq!(val, 0x08);
}

#[test]
fn test_set_bits() {
    let mut val = 0x00u8;
    val.set_bits(4, 2, 3);
    assert_eq!(val, 0x30);
}

#[test]
fn test_clear_bits() {
    let mut val = 0xffu8;
    val.set_bits(4, 2, 0);
    assert_eq!(val, 0xcf);
}

#[test]
fn test_get_bits() {
    let val = 0x12345678u32;
    assert_eq!(val.get_bit(3), true);
    assert_eq!(val.get_bit(2), false);
    assert_eq!(val.get_bit(1), false);
    assert_eq!(val.get_bit(0), false);

    assert_eq!(val.get_bit(31), false);
    assert_eq!(val.get_bit(30), false);
    assert_eq!(val.get_bit(29), false);
    assert_eq!(val.get_bit(28), true);

    assert_eq!(val.get_bits(28, 4), 0x1);
    assert_eq!(val.get_bits(24, 4), 0x2);
}

#[test]
fn get_bits_reads_back_what_set_bits_wrote() {
    let mut a: u16 = 0xa5a5;
    a.set_bits(3, 7, 0x55);
    assert_eq!(a.get_bits(3, 7), 0x55);
    let mut b: u64 = 0;
    b.set_bits(40, 12, 0xabc);
    assert_eq!(b.get_bits(40, 12), 0xabc);
    assert_eq!(b, 0xabc << 40);
}

#[test]
fn set_bits_drops_the_high_bits_of_the_value() {
    let mut x: u32 = 0;
    x.set_bits(4, 4, 0xff);
    assert_eq!(x, 0xf0);
}

#[test]
fn set_bit_leaves_other_bits() {
    let mut x: u16 = 0x8001;
    x.set_bit(7, true);
    assert_eq!(x, 0x8081);
    x.set_bit(15, false);
    assert_eq!(x, 0x0081);
}

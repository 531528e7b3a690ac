use streamos::util::circular_array::{wrapping_increment, CircularArray};

#[test]
fn buffer_full() {
    let mut buffer: CircularArray<i32, 3> = CircularArray::new();
    assert!(buffer.push_back(1).is_ok());
    assert!(buffer.push_back(2).is_ok());
    assert!(buffer.push_back(3).is_ok());
    assert!(buffer.push_back(4).is_err());
}

#[test]
fn pop_empty() {
    let mut buffer: CircularArray<i32, 3> = CircularArray::new();
    assert!(buffer.pop_front().is_none());
}

#[test]
fn push_pop_pop() {
    let mut buffer: CircularArray<i32, 3> = CircularArray::new();
    assert!(buffer.push_back(1).is_ok());
    assert_eq!(buffer.pop_front(), Some(1));
    assert!(buffer.pop_front().is_none());
}

#[test]
fn full_then_not_full() {
    let mut buffer: CircularArray<i32, 3> = CircularArray::new();
    assert!(buffer.push_back(1).is_ok());
    assert!(buffer.push_back(2).is_ok());
    assert!(buffer.push_back(3).is_ok());
    assert!(buffer.push_back(4).is_err());
    assert_eq!(buffer.pop_front(), Some(1));
    assert!(buffer.push_back(4).is_ok());
    assert_eq!(buffer.pop_front(), Some(2));
    assert_eq!(buffer.pop_front(), Some(3));
    assert_eq!(buffer.pop_front(), Some(4));
}

#[test]
fn items_come_out_in_order_across_the_wrap() {
    let mut buffer: CircularArray<u8, 2> = CircularArray::new();
    for round in 0..5u8 {
        assert!(buffer.push_back(round).is_ok());
        assert_eq!(buffer.pop_front(), Some(round));
    }
    assert!(buffer.pop_front().is_none());
}

#[test]
fn wrapping_increment_wraps_at_the_size() {
    let mut i = 2usize;
    wrapping_increment(&mut i, 3);
    assert_eq!(i, 0);
    wrapping_increment(&mut i, 3);
    assert_eq!(i, 1);
}

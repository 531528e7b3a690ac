use streamos::allocator::{Allocator, FreeSegment, SEGMENT_HEADER_SIZE};
use streamos::multiboot2::MemoryMapEntry;

fn heap() -> Allocator {
    let mmap = [
        MemoryMapEntry { addr: 0, len: 0x9fc00, typ: 1, reserved: 0 },
        MemoryMapEntry { addr: 0x100000, len: 0x100000, typ: 1, reserved: 0 },
    ];
    let mut alloc = Allocator::new();
    alloc.init(&mmap, 0x100000, 0x180000);
    alloc
}

#[test]
fn init_places_one_segment_after_the_kernel() {
    let alloc = heap();
    assert_eq!(
        alloc.free_list(),
        vec![FreeSegment { addr: 0x180000, size: 0x100000 - 0x80000 - SEGMENT_HEADER_SIZE }]
    );
}

#[test]
fn test_simple_alloc() {
    let mut alloc = heap();
    let initial_state = alloc.free_list();
    let p = alloc.allocate(4, 4).expect("allocation");
    assert_ne!(initial_state, alloc.free_list());

    // Only the segment the block came from changed, and it shrank by at least the
    // block and its header.
    let alloc_state = alloc.free_list();
    assert_eq!(alloc_state.len(), initial_state.len());
    let num_diff = initial_state.iter().zip(alloc_state.iter()).filter(|(a, b)| a != b).count();
    assert_eq!(num_diff, 1);
    let (before, after) = initial_state
        .iter()
        .zip(alloc_state.iter())
        .find(|(a, b)| a != b)
        .expect("could not find a != b");
    assert!(before.size >= after.size + 4 + SEGMENT_HEADER_SIZE);
    assert_eq!(p % 4, 0);
    assert_eq!(p, 0x180000 + SEGMENT_HEADER_SIZE + before.size - 4);

    alloc.dealloc(p);
    assert_eq!(initial_state, alloc.free_list());
}

#[test]
fn test_nested_vector_alloc() {
    let mut alloc = heap();
    let initial_state = alloc.free_list();
    const NUM_ALLOCATIONS: usize = 10;
    let mut blocks = Vec::new();
    for i in 1..NUM_ALLOCATIONS {
        blocks.push(alloc.allocate(i * 8, 8).expect("allocation"));
    }
    // Free every other block to make holes.
    let mut kept = Vec::new();
    for (i, p) in blocks.into_iter().enumerate() {
        if i % 2 == 0 {
            alloc.dealloc(p);
        } else {
            kept.push(p);
        }
    }
    // Allocate and free again.
    let mut again = Vec::new();
    for i in 1..NUM_ALLOCATIONS {
        again.push(alloc.allocate(i * 4, 4).expect("allocation"));
    }
    for p in again.into_iter().rev() {
        alloc.dealloc(p);
    }
    for p in kept {
        alloc.dealloc(p);
    }
    assert_eq!(initial_state, alloc.free_list());
}

#[test]
fn blocks_are_aligned_and_do_not_overlap() {
    let mut alloc = heap();
    let a = alloc.allocate(100, 64).unwrap();
    let b = alloc.allocate(3, 16).unwrap();
    assert_eq!(a % 64, 0);
    assert_eq!(b % 16, 0);
    assert!(b + 3 + SEGMENT_HEADER_SIZE <= a || a + 100 + SEGMENT_HEADER_SIZE <= b);
}

#[test]
fn too_large_a_request_fails() {
    let mut alloc = heap();
    assert!(alloc.allocate(0x100000, 4).is_none());
    let mut empty = Allocator::new();
    assert!(empty.allocate(1, 1).is_none());
}

#[test]
fn freeing_merges_neighbours() {
    let mut alloc = heap();
    let initial = alloc.free_list();
    let a = alloc.allocate(16, 8).unwrap();
    let b = alloc.allocate(16, 8).unwrap();
    let c = alloc.allocate(16, 8).unwrap();
    alloc.dealloc(b);
    assert_eq!(alloc.free_list().len(), 2);
    alloc.dealloc(a);
    assert_eq!(alloc.free_list().len(), 2);
    alloc.dealloc(c);
    assert_eq!(alloc.free_list(), initial);
}

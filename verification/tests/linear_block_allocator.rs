use terrarium::linear_block_allocator::{LinearBlockAllocation, LinearBlockAllocator};

fn range(a: Option<LinearBlockAllocation>) -> Option<(u64, u64)> {
    a.map(|a| (a.start, a.end))
}

#[test]
fn allocate_takes_from_the_start() {
    let mut a = LinearBlockAllocator::new(100);
    assert_eq!(range(a.allocate(10)), Some((0, 10)));
    assert_eq!(range(a.allocate(20)), Some((10, 30)));
    assert_eq!(range(a.allocate(30)), Some((30, 60)));
}

#[test]
fn allocate_fails_when_no_region_is_large_enough() {
    let mut a = LinearBlockAllocator::new(100);
    assert_eq!(range(a.allocate(100)), Some((0, 100)));
    assert_eq!(range(a.allocate(1)), None);
    assert!(!a.has_room(1));
    let mut b = LinearBlockAllocator::new(10);
    assert_eq!(range(b.allocate(11)), None);
    assert_eq!(range(b.allocate(10)), Some((0, 10)));
}

#[test]
fn allocate_picks_the_lowest_region_that_fits() {
    let mut a = LinearBlockAllocator::new(100);
    let x = a.allocate(10).unwrap();
    let y = a.allocate(20).unwrap();
    let _z = a.allocate(10).unwrap();
    a.free(x);
    a.free(y);
    // [0, 30) is free again and merged; [40, 100) is free too.
    assert_eq!(range(a.allocate(25)), Some((0, 25)));
    assert_eq!(range(a.allocate(10)), Some((40, 50)));
    assert_eq!(range(a.allocate(5)), Some((25, 30)));
}

#[test]
fn free_merges_with_both_neighbours() {
    let mut a = LinearBlockAllocator::new(30);
    let x = a.allocate(10).unwrap();
    let y = a.allocate(10).unwrap();
    let z = a.allocate(10).unwrap();
    a.free(x);
    a.free(z);
    assert!(!a.has_room(11));
    a.free(y);
    assert_eq!(range(a.allocate(30)), Some((0, 30)));
}

#[test]
fn free_undoes_allocate() {
    let mut a = LinearBlockAllocator::new(64);
    let x = a.allocate(16).unwrap();
    a.free(x);
    assert_eq!(range(a.allocate(64)), Some((0, 64)));
}

#[test]
fn freed_room_can_be_allocated_again() {
    let mut a = LinearBlockAllocator::new(50);
    let _x = a.allocate(20).unwrap();
    let y = a.allocate(30).unwrap();
    assert!(!a.has_room(30));
    a.free(y);
    assert!(a.has_room(30));
    assert_eq!(range(a.allocate(30)), Some((20, 50)));
}

#[test]
fn zero_sized_allocation_keeps_the_region() {
    let mut a = LinearBlockAllocator::new(10);
    assert_eq!(range(a.allocate(0)), Some((0, 0)));
    assert_eq!(range(a.allocate(10)), Some((0, 10)));
}

#[test]
fn allocator_of_size_zero() {
    let mut a = LinearBlockAllocator::new(0);
    assert_eq!(range(a.allocate(1)), None);
    assert_eq!(range(a.allocate(0)), Some((0, 0)));
    assert_eq!(range(a.allocate(0)), None);
}

#[test]
fn is_allocated_tracks_starts() {
    let mut a = LinearBlockAllocator::new(20);
    assert!(!a.is_allocated(0));
    let x = a.allocate(5).unwrap();
    assert!(a.is_allocated(0));
    assert!(!a.is_allocated(5));
    a.free(x);
    assert!(!a.is_allocated(0));
}

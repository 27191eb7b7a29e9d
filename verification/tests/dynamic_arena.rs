use tea_arena::{AllocError, DynamicArena, DEFAULT_PAGE_SIZE};

const TEST_STRUCT_SIZE: usize = 8;
const I32_STRUCT_SIZE: usize = 8;
const THREE_BYTE_STRUCT_SIZE: usize = 3;

fn ts(x: f32, y: f32) -> Vec<u8> {
    let mut v = x.to_le_bytes().to_vec();
    v.extend_from_slice(&y.to_le_bytes());
    v
}

fn read(arena: &DynamicArena, off: usize, len: usize) -> Vec<u8> {
    (0..len).map(|i| arena.byte_at(off + i)).collect()
}

fn ts_x(arena: &DynamicArena, off: usize) -> f32 {
    f32::from_le_bytes(read(arena, off, 4).try_into().unwrap())
}

fn ts_y(arena: &DynamicArena, off: usize) -> f32 {
    f32::from_le_bytes(read(arena, off + 4, 4).try_into().unwrap())
}

/// Allocate until we have used all of the reserved space
fn fill_arena(arena: &mut DynamicArena, val: &[u8]) {
    loop {
        match arena.alloc_value(val) {
            Ok(_) => {}
            Err(err) => {
                if err == AllocError::AtCapacity {
                    break;
                } else {
                    assert!(false);
                }
            }
        }
    }
}

#[test]
fn alloc_value() {
    let page_size = DEFAULT_PAGE_SIZE;
    let mut arena = DynamicArena::with_capacity_reserve(page_size, page_size);
    {
        let test = arena.alloc_value(&ts(0.0, 0.0)).unwrap();
        assert!(ts_x(&arena, test) == 0.0);
        assert!(ts_y(&arena, test) == 0.0);
    }
}

#[test]
fn dynamic_arena_alloc_zeroed() {
    let page_size = DEFAULT_PAGE_SIZE;
    let mut arena = DynamicArena::with_capacity_reserve(page_size, page_size);
    {
        let test = arena.alloc_zeroed(TEST_STRUCT_SIZE).unwrap();
        assert!(ts_x(&arena, test) == 0.0);
        assert!(ts_y(&arena, test) == 0.0);
    }
}

#[test]
fn with_capacity_reserve() {
    let page_size = DEFAULT_PAGE_SIZE;
    DynamicArena::with_capacity_reserve(page_size, page_size);
}

#[test]
fn dynamic_arena_reset() {
    let page_size = DEFAULT_PAGE_SIZE;
    let mut arena = DynamicArena::with_capacity_reserve(page_size, page_size);

    fill_arena(&mut arena, &ts(0.0, 0.0));

    arena.reset();
    assert_eq!(arena.used(), 0);
    assert_eq!(arena.committed(), page_size);

    {
        let test = arena.alloc_value(&ts(1.0, 2.0)).unwrap();
        assert!(ts_x(&arena, test) == 1.0);
        assert!(ts_y(&arena, test) == 2.0);
    }
}

#[test]
fn reset_without_shrink() {
    let page_size = DEFAULT_PAGE_SIZE;
    let mut arena = DynamicArena::with_capacity_reserve(page_size, 2 * page_size);

    fill_arena(&mut arena, &ts(0.0, 0.0));

    arena.reset();
    assert_eq!(arena.used(), 0);
    assert_eq!(arena.committed(), arena.reserved());

    {
        let test = arena.alloc_value(&ts(1.0, 2.0)).unwrap();
        assert!(ts_x(&arena, test) == 1.0);
        assert!(ts_y(&arena, test) == 2.0);
    }
}

#[test]
fn reset_and_shrink() {
    let page_size = DEFAULT_PAGE_SIZE;
    let mut arena = DynamicArena::with_capacity_reserve(page_size, 2 * page_size);

    fill_arena(&mut arena, &ts(0.0, 0.0));

    arena.reset_and_shrink(page_size);
    assert_eq!(arena.used(), 0);
    assert_eq!(arena.committed(), page_size);

    // test that we can alloc and write after reset
    {
        let test = arena.alloc_value(&ts(1.0, 2.0)).unwrap();
        assert_eq!(ts_x(&arena, test), 1.0);
        assert_eq!(ts_y(&arena, test), 2.0);
    }
}

/// A test for shrinking to the reserve size after using all reserved
/// memory
#[test]
fn shrink_to_reserve_size() {
    let page_size = DEFAULT_PAGE_SIZE;
    let reserve_size = 2 * page_size;
    let mut arena = DynamicArena::with_capacity_reserve(page_size, reserve_size);

    fill_arena(&mut arena, &ts(0.0, 0.0));

    arena.reset_and_shrink(reserve_size);
    assert_eq!(arena.used(), 0);
    assert_eq!(arena.committed(), arena.reserved());

    // test that we can alloc and write after reset
    fill_arena(&mut arena, &ts(1.0, -1.0));
}

/// A test for shrinking to the reserve size even if not all of it is
/// committed. The committed value should not increase
#[test]
fn shrink_to_reserve_size_under_committed() {
    let page_size = DEFAULT_PAGE_SIZE;
    let reserve_size = 2 * page_size;
    let mut arena = DynamicArena::with_capacity_reserve(page_size, reserve_size);

    // only fill up to the current committed size
    while page_size - arena.committed() > TEST_STRUCT_SIZE {
        arena.alloc_zeroed(TEST_STRUCT_SIZE).unwrap();
    }

    let old_committed = arena.committed();
    arena.reset_and_shrink(reserve_size);
    assert_eq!(arena.used(), 0);
    assert_eq!(arena.committed(), old_committed);

    // test that we can alloc and write after reset
    fill_arena(&mut arena, &ts(1.0, -1.0));
}

#[test]
fn reset_and_shrink_page_offset() {
    let page_size = DEFAULT_PAGE_SIZE;
    let mut arena = DynamicArena::with_capacity_reserve(page_size, 4 * page_size);

    fill_arena(&mut arena, &ts(0.0, 0.0));

    // shrink to a size that is not a multiple of page size
    // should round up to the next page
    arena.reset_and_shrink(3 * page_size / 2);
    assert_eq!(arena.used(), 0);
    assert_eq!(arena.committed(), 2 * page_size);

    // test that we can alloc and write after reset
    {
        let test = arena.alloc_value(&ts(1.0, 2.0)).unwrap();
        assert!(ts_x(&arena, test) == 1.0);
        assert!(ts_y(&arena, test) == 2.0);
    }
}

#[test]
fn shrink_to_zero() {
    let page_size = DEFAULT_PAGE_SIZE;
    let mut arena = DynamicArena::with_capacity_reserve(page_size, 4 * page_size);

    fill_arena(&mut arena, &ts(0.0, 0.0));

    // shrink to zero. nothing should be committed
    arena.reset_and_shrink(0);
    assert_eq!(arena.used(), 0);
    assert_eq!(arena.committed(), 0);

    // refill after shrink to zero
    fill_arena(&mut arena, &ts(0.0, 0.0));
    assert_eq!(arena.committed(), arena.reserved());
}

/// test allocating memory that is a factor of the page size
/// this also tests allocating with no reserves left over
#[test]
fn alloc_struct_page_size_factor() {
    let page_size = DEFAULT_PAGE_SIZE;
    let mut arena = DynamicArena::with_capacity_reserve(page_size, 4 * page_size);

    fill_arena(&mut arena, &[0u8]);
    assert_eq!(arena.used(), arena.committed());
    assert_eq!(arena.committed(), arena.reserved());
}

/// test allocating memory that is not a factor of the page size
#[test]
fn alloc_struct_not_page_size_factor() {
    let page_size = DEFAULT_PAGE_SIZE;
    let mut arena = DynamicArena::with_capacity_reserve(page_size, 4 * page_size);

    fill_arena(&mut arena, &[0u8; THREE_BYTE_STRUCT_SIZE]);
    assert!(arena.used() < arena.committed());
    // check that all of the memory that could have been used was used
    assert!((arena.committed() - arena.used()) < THREE_BYTE_STRUCT_SIZE);
    assert_eq!(arena.committed(), arena.reserved());
}

/// tests that the committed memory does not grow unnecessarily
/// and that it grows exactly when it runs out of memory
#[test]
fn alloc_to_capacity() {
    let page_size = DEFAULT_PAGE_SIZE;
    let mut arena = DynamicArena::with_capacity_reserve(page_size, 4 * page_size);

    for _ in 0..page_size {
        arena.alloc_zeroed(1).unwrap();
    }
    assert_eq!(arena.committed(), page_size);

    arena.alloc_zeroed(1).unwrap();
    assert!(arena.committed() > page_size);
}

/// A test for initializing an arena where we requested < 1 page worth of
/// memory.
#[test]
fn alloc_under_page_size() {
    let page_size = DEFAULT_PAGE_SIZE;
    let mut arena = DynamicArena::with_capacity_reserve(page_size / 2, page_size / 2);

    fill_arena(&mut arena, &[0u8]);
    assert_eq!(arena.committed(), page_size / 2);
    assert_eq!(arena.used(), page_size / 2);
}

/// A test for initializing an arena where the reserves are not a multiple
/// of the page size
#[test]
fn arena_fractional_page() {
    let page_size = DEFAULT_PAGE_SIZE;
    let mut arena = DynamicArena::with_capacity_reserve(page_size, 3 * page_size / 2);

    fill_arena(&mut arena, &[0u8]);
    assert_eq!(arena.committed(), arena.reserved());
    assert_eq!(arena.used(), arena.reserved());
}

#[test]
fn dynamic_arena_alloc_array() {
    let page_size = DEFAULT_PAGE_SIZE;
    let mut arena = DynamicArena::with_capacity_reserve(page_size, page_size);

    let init_value = ts(0.0, 0.0);
    let count = arena.reserved() / TEST_STRUCT_SIZE;
    let test = arena.alloc_array(&init_value, count).unwrap();
    for k in 0..count {
        assert_eq!(read(&arena, test + k * TEST_STRUCT_SIZE, TEST_STRUCT_SIZE), init_value);
    }
    assert_eq!(arena.used(), arena.committed());
    assert_eq!(arena.committed(), arena.reserved());
}

#[test]
fn alloc_array_non_default() {
    let page_size = DEFAULT_PAGE_SIZE;
    let mut arena = DynamicArena::with_capacity_reserve(page_size, page_size);

    let init_value = ts(1.0, 2.0);
    let count = arena.reserved() / TEST_STRUCT_SIZE;
    let test = arena.alloc_array(&init_value, count).unwrap();
    for k in 0..count {
        assert_eq!(read(&arena, test + k * TEST_STRUCT_SIZE, TEST_STRUCT_SIZE), init_value);
    }
    assert_eq!(arena.used(), arena.committed());
    assert_eq!(arena.committed(), arena.reserved());
}

#[test]
fn dynamic_arena_alloc_zeroed_array() {
    let page_size = DEFAULT_PAGE_SIZE;
    let mut arena = DynamicArena::with_capacity_reserve(page_size, page_size);

    let count = arena.reserved() / I32_STRUCT_SIZE;
    let test = arena.alloc_zeroed_array(I32_STRUCT_SIZE, count).unwrap();
    for k in 0..count {
        let base = test + k * I32_STRUCT_SIZE;
        let x = i32::from_le_bytes(read(&arena, base, 4).try_into().unwrap());
        let y = i32::from_le_bytes(read(&arena, base + 4, 4).try_into().unwrap());
        assert_eq!(x, 0);
        assert_eq!(y, 0);
    }
    assert_eq!(arena.used(), arena.committed());
    assert_eq!(arena.committed(), arena.reserved());
}

#[test]
fn alloc_uninitialized_array() {
    let page_size = DEFAULT_PAGE_SIZE;
    let mut arena = DynamicArena::with_capacity_reserve(page_size, page_size);

    arena
        .alloc_uninitialized_array(I32_STRUCT_SIZE, arena.reserved() / I32_STRUCT_SIZE)
        .unwrap();

    assert_eq!(arena.used(), arena.committed());
    assert_eq!(arena.committed(), arena.reserved());
}

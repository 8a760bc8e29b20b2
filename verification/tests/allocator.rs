use tos_alloc::align::{is_power_of_two, round_down};
use tos_alloc::{
    BumpAllocator, HeapRegion, TosAllocator, CURSOR_UNSET, CURSOR_WORD_SIZE, DEFAULT_HEAP_SIZE,
    HEAP_START, MAX_HEAP_SIZE, MIN_HEAP_SIZE,
};

const TOP: u64 = 0x300008000;
const BOTTOM: u64 = 0x300000008;

#[test]
fn constants_match_the_host() {
    assert_eq!(HEAP_START, 0x300000000);
    assert_eq!(DEFAULT_HEAP_SIZE, 32768);
    assert_eq!(MAX_HEAP_SIZE, 262144);
    assert_eq!(MIN_HEAP_SIZE, 4096);
    assert_eq!(CURSOR_WORD_SIZE, 8);
    assert_eq!(CURSOR_UNSET, 0);
}

#[test]
fn new_uses_the_default_window() {
    let allocator = BumpAllocator::new();
    assert_eq!(allocator.start, 0x300000000);
    assert_eq!(allocator.len, 32768);
    let by_default = BumpAllocator::default();
    assert_eq!(by_default.start, allocator.start);
    assert_eq!(by_default.len, allocator.len);
    let aliased: TosAllocator = TosAllocator::new();
    assert_eq!(aliased.start, 0x300000000);
}

#[test]
fn first_allocation_comes_from_the_top() {
    let allocator = BumpAllocator::new();
    let mut cursor = CURSOR_UNSET;
    assert_eq!(allocator.allocate(&mut cursor, 40, 8), Some(0x300007FD8));
    assert_eq!(cursor, 0x300007FD8);
    assert_eq!(allocator.usage(cursor), (40, 32720));
}

#[test]
fn oversized_request_fails_and_changes_nothing() {
    let allocator = BumpAllocator::new();
    let mut cursor = CURSOR_UNSET;
    assert_eq!(allocator.allocate(&mut cursor, 40, 8), Some(0x300007FD8));
    let before = allocator.usage(cursor);
    assert_eq!(allocator.allocate(&mut cursor, 100000, 8), None);
    assert_eq!(cursor, 0x300007FD8);
    assert_eq!(allocator.usage(cursor), before);
    assert_eq!(allocator.usage(cursor), (40, 32720));
}

#[test]
fn usage_before_any_allocation() {
    let allocator = BumpAllocator::new();
    assert_eq!(allocator.usage(CURSOR_UNSET), (0, 32760));
}

#[test]
fn usage_adds_up_to_capacity_for_any_cursor_word() {
    let allocator = BumpAllocator::new();
    let words = [0, 1, 7, BOTTOM - 1, BOTTOM, BOTTOM + 1, 0x300004000, TOP - 1, TOP, TOP + 1, u64::MAX];
    for word in words {
        let (used, remaining) = allocator.usage(word);
        assert_eq!(used + remaining, 32760);
    }
    assert_eq!(allocator.usage(BOTTOM), (32760, 0));
    assert_eq!(allocator.usage(TOP), (0, 32760));
    assert_eq!(allocator.usage(0x300004000), (16384, 16376));
}

#[test]
fn allocation_rounds_down_to_the_alignment() {
    let allocator = BumpAllocator::new();
    let mut cursor = CURSOR_UNSET;
    assert_eq!(allocator.allocate(&mut cursor, 1, 1), Some(0x300007FFF));
    assert_eq!(allocator.allocate(&mut cursor, 1, 4096), Some(0x300007000));
    assert_eq!(allocator.allocate(&mut cursor, 3, 16), Some(0x300006FF0));
    assert_eq!(allocator.allocate(&mut cursor, 5, 2), Some(0x300006FEA));
    assert_eq!(allocator.usage(cursor), (0x1016, 32760 - 0x1016));
}

#[test]
fn zero_sized_request_returns_the_aligned_cursor() {
    let allocator = BumpAllocator::new();
    let mut cursor = CURSOR_UNSET;
    assert_eq!(allocator.allocate(&mut cursor, 0, 8), Some(TOP));
    assert_eq!(cursor, TOP);
    assert_eq!(allocator.usage(cursor), (0, 32760));
    assert_eq!(allocator.allocate(&mut cursor, 3, 1), Some(TOP - 3));
    assert_eq!(allocator.allocate(&mut cursor, 0, 8), Some(TOP - 8));
}

#[test]
fn whole_capacity_can_be_granted_once() {
    let allocator = BumpAllocator::new();
    let mut cursor = CURSOR_UNSET;
    assert_eq!(allocator.allocate(&mut cursor, 32760, 8), Some(BOTTOM));
    assert_eq!(allocator.usage(cursor), (32760, 0));
    assert_eq!(allocator.allocate(&mut cursor, 1, 1), None);
    assert_eq!(allocator.allocate(&mut cursor, 0, 1), Some(BOTTOM));
    assert_eq!(allocator.allocate(&mut cursor, 0, 16), None);
}

#[test]
fn one_byte_more_than_capacity_fails() {
    let allocator = BumpAllocator::new();
    let mut cursor = CURSOR_UNSET;
    assert_eq!(allocator.allocate(&mut cursor, 32761, 1), None);
    assert_eq!(cursor, CURSOR_UNSET);
}

#[test]
fn huge_request_does_not_wrap() {
    let allocator = BumpAllocator::new();
    let mut cursor = CURSOR_UNSET;
    assert_eq!(allocator.allocate(&mut cursor, u64::MAX, 1), None);
    assert_eq!(allocator.allocate(&mut cursor, TOP + 1, 1), None);
    assert_eq!(allocator.allocate(&mut cursor, TOP, 1), None);
    assert_eq!(cursor, CURSOR_UNSET);
    assert_eq!(allocator.allocate(&mut cursor, 8, 1 << 63), None);
}

#[test]
fn padding_can_refuse_a_request_that_fits_by_size() {
    let allocator = BumpAllocator::new();
    let mut cursor = CURSOR_UNSET;
    assert_eq!(allocator.allocate(&mut cursor, 1, 1), Some(TOP - 1));
    assert_eq!(allocator.allocate(&mut cursor, 32759, 4096), None);
    assert_eq!(allocator.allocate(&mut cursor, 32759, 1), Some(BOTTOM));
}

#[test]
fn granted_blocks_are_aligned_and_disjoint() {
    let allocator = BumpAllocator::new();
    let mut cursor = CURSOR_UNSET;
    let requests: [(u64, u64); 8] =
        [(24, 8), (1, 1), (100, 64), (7, 2), (4096, 4096), (0, 16), (33, 32), (512, 4)];
    let mut granted: Vec<(u64, u64)> = Vec::new();
    for (size, align) in requests {
        let address = allocator.allocate(&mut cursor, size, align).unwrap();
        assert_eq!(address % align, 0);
        assert!(address >= BOTTOM);
        assert!(address + size <= TOP);
        for (other, other_size) in &granted {
            assert!(address + size <= *other || *other + *other_size <= address);
        }
        granted.push((address, size));
    }
}

#[test]
fn requests_are_granted_until_the_capacity_is_exceeded() {
    let allocator = BumpAllocator::new();
    let mut cursor = CURSOR_UNSET;
    let mut granted: u64 = 0;
    for i in 0..8u64 {
        let expected = TOP - 4095 * (i + 1);
        assert_eq!(allocator.allocate(&mut cursor, 4095, 1), Some(expected));
        granted += 4095;
    }
    assert_eq!(granted, 32760);
    assert_eq!(allocator.usage(cursor), (32760, 0));
    assert_eq!(allocator.allocate(&mut cursor, 4095, 1), None);
    assert_eq!(allocator.usage(cursor), (32760, 0));
}

#[test]
fn forged_cursor_is_not_believed() {
    let allocator = BumpAllocator::new();
    let forged_words = [1, 7, BOTTOM - 1, TOP + 1, 0x400000000, u64::MAX];
    for forged in forged_words {
        let mut cursor = forged;
        assert_eq!(allocator.usage(cursor), (0, 32760));
        assert_eq!(allocator.allocate(&mut cursor, 40, 8), Some(0x300007FD8));
        assert_eq!(cursor, 0x300007FD8);
        assert_eq!(allocator.usage(cursor), (40, 32720));
    }
}

#[test]
fn forged_cursor_survives_a_refused_request() {
    let allocator = BumpAllocator::new();
    let mut cursor = 0x12345;
    assert_eq!(allocator.allocate(&mut cursor, 100000, 8), None);
    assert_eq!(cursor, 0x12345);
    assert_eq!(allocator.allocate(&mut cursor, 16, 16), Some(0x300007FF0));
}

#[test]
fn cursor_at_the_bounds_is_believed() {
    let allocator = BumpAllocator::new();
    let mut cursor = BOTTOM;
    assert_eq!(allocator.allocate(&mut cursor, 1, 1), None);
    assert_eq!(allocator.allocate(&mut cursor, 0, 8), Some(BOTTOM));
    let mut cursor = BOTTOM + 8;
    assert_eq!(allocator.allocate(&mut cursor, 8, 8), Some(BOTTOM));
    let mut cursor = TOP;
    assert_eq!(allocator.allocate(&mut cursor, 8, 8), Some(TOP - 8));
}

#[test]
fn deallocate_reclaims_nothing() {
    let allocator = BumpAllocator::new();
    let mut cursor = CURSOR_UNSET;
    let address = allocator.allocate(&mut cursor, 64, 8).unwrap();
    let before = allocator.usage(cursor);
    allocator.deallocate(&mut cursor, address, 64);
    assert_eq!(cursor, address);
    assert_eq!(allocator.usage(cursor), before);
    assert_eq!(allocator.allocate(&mut cursor, 64, 8), Some(address - 64));
}

#[test]
fn allocator_without_a_usable_window_grants_nothing() {
    let allocator = BumpAllocator::with_region(HeapRegion::empty());
    let mut cursor = CURSOR_UNSET;
    assert_eq!(allocator.allocate(&mut cursor, 0, 1), None);
    assert_eq!(allocator.allocate(&mut cursor, 8, 8), None);
    assert_eq!(cursor, CURSOR_UNSET);
    assert_eq!(allocator.usage(cursor), (0, 0));
    assert_eq!(allocator.usage(12345), (0, 0));
    assert_eq!(allocator.resolve(), HeapRegion::empty());

    let too_small = BumpAllocator { start: 0x1000, len: 4095 };
    assert_eq!(too_small.allocate(&mut cursor, 8, 8), None);
    assert_eq!(too_small.usage(cursor), (0, 0));
    let wrapping = BumpAllocator { start: u64::MAX - 4095, len: 4097 };
    assert_eq!(wrapping.allocate(&mut cursor, 8, 8), None);
    assert_eq!(wrapping.usage(cursor), (0, 0));
}

#[test]
fn allocator_over_another_window() {
    let region = HeapRegion::new(0x1000, 4096);
    assert_eq!(region, HeapRegion { base: 0x1000, length: 4096 });
    let allocator = BumpAllocator::with_region(region);
    assert_eq!(allocator.start, 0x1000);
    assert_eq!(allocator.len, 4096);
    assert_eq!(allocator.resolve(), region);
    let mut cursor = CURSOR_UNSET;
    assert_eq!(allocator.usage(cursor), (0, 4088));
    assert_eq!(allocator.allocate(&mut cursor, 100, 64), Some(0x1F80));
    assert_eq!(allocator.usage(cursor), (128, 3960));
    assert_eq!(allocator.allocate(&mut cursor, 3961, 1), None);
    assert_eq!(allocator.allocate(&mut cursor, 3960, 1), Some(0x1008));
}

#[test]
fn regions_are_validated() {
    assert!(HeapRegion::fixed().is_usable());
    assert_eq!(HeapRegion::fixed(), HeapRegion { base: 0x300000000, length: 32768 });
    assert!(!HeapRegion::empty().is_usable());
    assert_eq!(HeapRegion::empty(), HeapRegion { base: 0, length: 0 });
    assert!(HeapRegion { base: 1, length: 4096 }.is_usable());
    assert!(HeapRegion { base: 1, length: 262144 }.is_usable());
    assert!(!HeapRegion { base: 1, length: 4095 }.is_usable());
    assert!(!HeapRegion { base: 1, length: 262145 }.is_usable());
    assert!(!HeapRegion { base: 0, length: 4096 }.is_usable());
    assert!(HeapRegion { base: u64::MAX - 4096, length: 4096 }.is_usable());
    assert!(!HeapRegion { base: u64::MAX - 4095, length: 4096 }.is_usable());
    assert_eq!(HeapRegion::new(1, 4095), HeapRegion::empty());
    assert_eq!(HeapRegion::new(0, 4096), HeapRegion::empty());
    assert_eq!(HeapRegion::new(7, 8192), HeapRegion { base: 7, length: 8192 });
}

#[test]
fn host_answers_are_validated() {
    let ok = HeapRegion::from_host(true, 0x300000000, 32768);
    assert_eq!(ok, HeapRegion { base: 0x300000000, length: 32768 });
    assert_eq!(HeapRegion::from_host(false, 0x300000000, 32768), HeapRegion::empty());
    assert_eq!(HeapRegion::from_host(true, 0, 32768), HeapRegion::empty());
    assert_eq!(HeapRegion::from_host(true, 0x300000000, 0), HeapRegion::empty());
    assert_eq!(HeapRegion::from_host(true, 0x300000000, 100), HeapRegion::empty());
    assert_eq!(HeapRegion::from_host(true, 0x300000000, 1 << 20), HeapRegion::empty());
    let failed = BumpAllocator::with_region(HeapRegion::from_host(true, 0, 0));
    let mut cursor = CURSOR_UNSET;
    assert_eq!(failed.allocate(&mut cursor, 1, 1), None);
    assert_eq!(failed.usage(cursor), (0, 0));
}

#[test]
fn cursor_words_are_validated_on_load() {
    let region = HeapRegion::fixed();
    assert_eq!(region.load_cursor(CURSOR_UNSET), TOP);
    assert_eq!(region.load_cursor(BOTTOM - 1), TOP);
    assert_eq!(region.load_cursor(BOTTOM), BOTTOM);
    assert_eq!(region.load_cursor(0x300001234), 0x300001234);
    assert_eq!(region.load_cursor(TOP), TOP);
    assert_eq!(region.load_cursor(TOP + 1), TOP);
    assert_eq!(region.load_cursor(u64::MAX), TOP);
}

#[test]
fn place_decides_without_moving_the_cursor() {
    let region = HeapRegion::fixed();
    assert_eq!(region.place(CURSOR_UNSET, 40, 8), Some(0x300007FD8));
    assert_eq!(region.place(0x300007FD8, 40, 8), Some(0x300007FB0));
    assert_eq!(region.place(0x300007FD8, 100000, 8), None);
    assert_eq!(region.place(0x300000010, 9, 1), None);
    assert_eq!(region.place(0x300000010, 8, 1), Some(BOTTOM));
    assert_eq!(HeapRegion::empty().place(CURSOR_UNSET, 0, 1), None);
}

#[test]
fn round_down_clears_the_low_bits() {
    assert_eq!(round_down(0, 1), 0);
    assert_eq!(round_down(13, 1), 13);
    assert_eq!(round_down(13, 2), 12);
    assert_eq!(round_down(13, 4), 12);
    assert_eq!(round_down(13, 8), 8);
    assert_eq!(round_down(13, 16), 0);
    assert_eq!(round_down(0x300007FFF, 4096), 0x300007000);
    assert_eq!(round_down(u64::MAX, 1 << 63), 1 << 63);
    assert_eq!(round_down(u64::MAX, 1), u64::MAX);
}

#[test]
fn powers_of_two_are_recognised() {
    assert!(!is_power_of_two(0));
    assert!(is_power_of_two(1));
    assert!(is_power_of_two(2));
    assert!(!is_power_of_two(3));
    assert!(is_power_of_two(4096));
    assert!(!is_power_of_two(4097));
    assert!(is_power_of_two(1 << 63));
    assert!(!is_power_of_two(u64::MAX));
    for shift in 0..64u32 {
        assert!(is_power_of_two(1u64 << shift));
        assert_eq!(is_power_of_two((1u64 << shift) + 1), shift == 0);
    }
}

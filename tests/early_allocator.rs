use bump_allocator::align::{align_down, align_up};
use bump_allocator::early::{AllocError, EarlyAllocator};

const PAGE: usize = 0x1000;

fn fresh(start: usize, size: usize) -> EarlyAllocator<PAGE> {
    let mut a = EarlyAllocator::<PAGE>::new();
    a.init(start, size);
    a
}

#[test]
fn align_helpers_exact_values() {
    assert_eq!(align_down(0x1234, 0x1000), 0x1000);
    assert_eq!(align_down(0x2000, 0x1000), 0x2000);
    assert_eq!(align_down(7, 1), 7);
    assert_eq!(align_up(0x1234, 0x1000), 0x2000);
    assert_eq!(align_up(0x2000, 0x1000), 0x2000);
    assert_eq!(align_up(0x1001, 8), 0x1008);
    assert_eq!(align_up(0, 16), 0);
}

#[test]
fn new_is_empty() {
    let a = EarlyAllocator::<PAGE>::new();
    assert_eq!(a.total_bytes(), 0);
    assert_eq!(a.used_bytes(), 0);
    assert_eq!(a.available_bytes(), 0);
    assert_eq!(a.total_pages(), 0);
    assert_eq!(a.used_pages(), 0);
    assert_eq!(a.available_pages(), 0);
    assert_eq!(a.live_allocations(), 0);
}

#[test]
fn uninitialized_allocator_refuses_everything() {
    let mut a = EarlyAllocator::<PAGE>::new();
    assert_eq!(a.alloc_bytes(1, 1), Err(AllocError::NoMemory));
    assert_eq!(a.alloc_bytes(0, 1), Ok(0));
    assert_eq!(a.alloc_pages(1, 1), Err(AllocError::NoMemory));
}

#[test]
fn concrete_scenario_bytes_then_pages() {
    let mut a = fresh(0x1000, 0x2000);
    assert_eq!(a.used_bytes(), 0);
    assert_eq!(a.total_bytes(), 0x2000);
    assert_eq!(a.alloc_bytes(64, 8), Ok(0x1000));
    assert_eq!(a.used_bytes(), 64);
    assert_eq!(a.alloc_pages(1, 1), Ok(0x2000));
    assert_eq!(a.total_bytes(), 0x1000);
    assert_eq!(a.alloc_bytes(0x1000 - 64 + 1, 1), Err(AllocError::NoMemory));
    assert_eq!(a.used_bytes(), 64);
}

#[test]
fn init_rounds_page_cursor_down() {
    let a = fresh(0x1000, 0x2800);
    // end is 0x3800, the page cursor starts at 0x3000
    assert_eq!(a.total_bytes(), 0x2000);
    assert_eq!(a.available_bytes(), 0x2000);
    assert_eq!(a.used_pages(), 0);
    assert_eq!(a.total_pages(), 2);
    assert_eq!(a.available_pages(), 2);
}

#[test]
fn reinit_starts_over() {
    let mut a = fresh(0x1000, 0x2000);
    assert_eq!(a.alloc_bytes(100, 4), Ok(0x1000));
    assert_eq!(a.alloc_pages(1, 1), Ok(0x2000));
    a.init(0x10000, 0x4000);
    assert_eq!(a.used_bytes(), 0);
    assert_eq!(a.live_allocations(), 0);
    assert_eq!(a.total_bytes(), 0x4000);
    assert_eq!(a.alloc_bytes(8, 8), Ok(0x10000));
}

#[test]
fn byte_allocations_are_aligned_and_disjoint() {
    let mut a = fresh(0x1001, 0x3000);
    let requests: [(usize, usize); 6] = [(3, 1), (16, 8), (1, 1), (40, 64), (0, 16), (7, 4096)];
    let mut blocks: Vec<(usize, usize)> = Vec::new();
    for &(size, align) in requests.iter() {
        let addr = a.alloc_bytes(size, align).unwrap();
        assert_eq!(addr % align, 0);
        assert!(addr >= 0x1001);
        blocks.push((addr, size));
    }
    for i in 0..blocks.len() {
        for j in (i + 1)..blocks.len() {
            let (a1, s1) = blocks[i];
            let (a2, s2) = blocks[j];
            assert!(a1 + s1 <= a2 || a2 + s2 <= a1);
        }
    }
    assert_eq!(blocks[0], (0x1001, 3));
    assert_eq!(blocks[1], (0x1008, 16));
    assert_eq!(blocks[2], (0x1018, 1));
    assert_eq!(blocks[3], (0x1040, 40));
    assert_eq!(blocks[4], (0x1070, 0));
    assert_eq!(blocks[5], (0x2000, 7));
    assert_eq!(a.live_allocations(), 6);
}

#[test]
fn byte_allocation_stays_below_page_cursor() {
    let mut a = fresh(0x1000, 0x2000);
    assert_eq!(a.alloc_pages(1, 1), Ok(0x2000));
    let addr = a.alloc_bytes(0x1000, 1).unwrap();
    assert_eq!(addr, 0x1000);
    assert!(addr < 0x2000);
    assert_eq!(a.available_bytes(), 0);
    assert_eq!(a.alloc_bytes(1, 1), Err(AllocError::NoMemory));
}

#[test]
fn failed_byte_allocation_repeats_and_changes_nothing() {
    let mut a = fresh(0x1000, 0x2000);
    assert_eq!(a.alloc_bytes(10, 1), Ok(0x1000));
    let used = a.used_bytes();
    let avail = a.available_bytes();
    assert_eq!(a.alloc_bytes(0x2000, 1), Err(AllocError::NoMemory));
    assert_eq!(a.used_bytes(), used);
    assert_eq!(a.available_bytes(), avail);
    assert_eq!(a.live_allocations(), 1);
    assert_eq!(a.alloc_bytes(0x2000, 1), Err(AllocError::NoMemory));
    assert_eq!(a.used_bytes(), used);
    assert_eq!(a.live_allocations(), 1);
}

#[test]
fn alignment_padding_can_exhaust_bytes() {
    let mut a = fresh(0x1000, 0x2000);
    assert_eq!(a.alloc_bytes(1, 1), Ok(0x1000));
    // the next 0x1000-aligned address is 0x2000, and 0x2000 + 0x1000 is the page cursor
    assert_eq!(a.alloc_bytes(0x1000, 0x1000), Ok(0x2000));
    assert_eq!(a.alloc_bytes(0, 0x2000), Err(AllocError::NoMemory));
}

#[test]
fn page_allocations_descend_and_are_aligned() {
    let mut a = fresh(0x1000, 0x8000);
    let p1 = a.alloc_pages(1, 1).unwrap();
    let p2 = a.alloc_pages(2, 1).unwrap();
    let p3 = a.alloc_pages(1, 2).unwrap();
    assert_eq!(p1, 0x8000);
    assert_eq!(p2, 0x6000);
    assert_eq!(p3, 0x4000);
    for p in [p1, p2, p3] {
        assert_eq!(p % PAGE, 0);
        assert!(p < 0x9000);
    }
    assert!(p1 > p2 && p2 > p3);
    assert_eq!(a.used_pages(), 5);
}

#[test]
fn page_allocation_fails_below_byte_cursor() {
    let mut a = fresh(0x1000, 0x3000);
    assert_eq!(a.alloc_bytes(0x1001, 1), Ok(0x1000));
    assert_eq!(a.alloc_pages(1, 1), Ok(0x3000));
    assert_eq!(a.alloc_pages(1, 1), Err(AllocError::NoMemory));
    assert_eq!(a.used_pages(), 1);
    assert_eq!(a.alloc_pages(usize::MAX, 1), Err(AllocError::NoMemory));
    assert_eq!(a.alloc_pages(100, 1), Err(AllocError::NoMemory));
}

#[test]
fn page_alignment_can_skip_pages() {
    let mut a = fresh(0x0, 0x8000);
    assert_eq!(a.alloc_pages(1, 1), Ok(0x7000));
    // aligned to four pages: 0x6000 rounds down to 0x4000
    assert_eq!(a.alloc_pages(1, 4), Ok(0x4000));
    assert_eq!(a.used_pages(), 4);
}

#[test]
fn releases_reclaim_only_after_the_last() {
    let mut a = fresh(0x1000, 0x2000);
    let b1 = a.alloc_bytes(16, 8).unwrap();
    let b2 = a.alloc_bytes(32, 8).unwrap();
    let b3 = a.alloc_bytes(8, 8).unwrap();
    assert_eq!(a.live_allocations(), 3);
    assert_eq!(a.used_bytes(), 56);
    a.dealloc(b2, 32, 8);
    assert_eq!(a.live_allocations(), 2);
    assert_eq!(a.used_bytes(), 56);
    a.dealloc(b1, 16, 8);
    assert_eq!(a.live_allocations(), 1);
    assert_eq!(a.used_bytes(), 56);
    a.dealloc(b3, 8, 8);
    assert_eq!(a.live_allocations(), 0);
    assert_eq!(a.used_bytes(), 0);
    assert_eq!(a.alloc_bytes(4, 4), Ok(0x1000));
}

#[test]
fn statistics_add_up_after_each_operation() {
    let mut a = fresh(0x1003, 0x5000);
    let check = |a: &EarlyAllocator<PAGE>| {
        assert_eq!(a.used_bytes() + a.available_bytes(), a.total_bytes());
        assert_eq!(a.used_pages() + a.available_pages(), a.total_pages());
    };
    check(&a);
    let b = a.alloc_bytes(100, 16).unwrap();
    check(&a);
    a.alloc_pages(2, 1).unwrap();
    check(&a);
    assert_eq!(a.alloc_bytes(0x10000, 1), Err(AllocError::NoMemory));
    check(&a);
    a.dealloc(b, 100, 16);
    check(&a);
    assert_eq!(a.used_bytes(), 0);
}

#[test]
fn page_statistics_exact() {
    let mut a = fresh(0x1000, 0x4800);
    // end 0x5800, page cursor 0x5000
    a.alloc_bytes(0x10, 1).unwrap();
    a.alloc_pages(1, 1).unwrap();
    assert_eq!(a.used_pages(), 1);
    // from the page holding the byte cursor (0x1000) up to 0x4000
    assert_eq!(a.available_pages(), 3);
    assert_eq!(a.total_pages(), 4);
}

#[test]
fn growing_is_unsupported() {
    let mut a = fresh(0x1000, 0x2000);
    let before = (a.total_bytes(), a.used_bytes(), a.used_pages());
    assert_eq!(a.add_memory(0x8000, 0x1000), Err(AllocError::Unsupported));
    assert_eq!((a.total_bytes(), a.used_bytes(), a.used_pages()), before);
}

#[test]
fn releasing_pages_is_unsupported() {
    let mut a = fresh(0x1000, 0x2000);
    let p = a.alloc_pages(1, 1).unwrap();
    assert_eq!(a.dealloc_pages(p, 1), Err(AllocError::Unsupported));
    assert_eq!(a.used_pages(), 1);
    assert_eq!(a.total_bytes(), 0x1000);
}

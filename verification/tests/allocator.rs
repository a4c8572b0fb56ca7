use echo_mini_os::mem::allocator::{init, size_to_order, BuddyInner, ORDER_COUNT};

#[test]
fn size_to_order_rounds_up_to_blocks() {
    assert_eq!(size_to_order(1), 0);
    assert_eq!(size_to_order(32), 0);
    assert_eq!(size_to_order(33), 1);
    assert_eq!(size_to_order(64), 1);
    assert_eq!(size_to_order(4096), 7);
    assert_eq!(size_to_order(4097), 8);
}

#[test]
fn largest_order_respects_alignment_and_room() {
    let heap = BuddyInner::new();
    // 4 KiB aligned with 4 KiB left: one order-7 block.
    assert_eq!(heap.largest_order(0x1000, 4096), 7);
    // Only 32-byte aligned: order 0 whatever the room.
    assert_eq!(heap.largest_order(0x1020, 1 << 20), 0);
    // Less than the smallest block: order 0.
    assert_eq!(heap.largest_order(0x1000, 16), 0);
    assert_eq!(heap.largest_order(0, usize::MAX), ORDER_COUNT - 1);
}

#[test]
fn alloc_splits_and_returns_low_half() {
    let mut heap = init(0x1000, 4096);
    assert_eq!(heap.alloc_block(32, 8), 0x1000);
    assert_eq!(heap.alloc_block(32, 8), 0x1020);
    assert_eq!(heap.alloc_block(64, 8), 0x1040);
}

#[test]
fn dealloc_coalesces_back_to_whole_heap() {
    let mut heap = init(0x1000, 4096);
    let a = heap.alloc_block(32, 8);
    let b = heap.alloc_block(32, 8);
    let c = heap.alloc_block(64, 8);
    heap.dealloc(b, 32, 8);
    heap.dealloc(a, 32, 8);
    heap.dealloc(c, 64, 8);
    // Fully coalesced: the whole 4 KiB block is available again.
    assert_eq!(heap.alloc_block(4096, 1), 0x1000);
    // And now nothing is left.
    assert_eq!(heap.alloc_block(32, 1), 0);
}

#[test]
fn alloc_then_dealloc_restores_state() {
    let mut heap = init(0x1000, 4096);
    let p = heap.alloc_block(100, 4);
    assert_eq!(p, 0x1000);
    heap.dealloc(p, 100, 4);
    assert_eq!(heap.alloc_block(4096, 1), 0x1000);
}

#[test]
fn alloc_out_of_memory_is_null() {
    let mut heap = init(0x1000, 64);
    assert_eq!(heap.alloc_block(100, 1), 0);
    assert_eq!(heap.alloc_block(1, 64), 0x1000);
    assert_eq!(heap.alloc_block(1, 1), 0);
}

#[test]
fn uninitialised_heap_has_nothing() {
    let mut heap = BuddyInner::new();
    assert_eq!(heap.alloc_block(32, 1), 0);
}

#[test]
fn init_splits_unaligned_tail() {
    // 4 KiB + 96 bytes: one order-7 block, then 64 and 32 at the end.
    let mut heap = init(0x1000, 4096 + 96);
    assert_eq!(heap.alloc_block(32, 1), 0x2040);
    assert_eq!(heap.alloc_block(64, 1), 0x2000);
    assert_eq!(heap.alloc_block(4096, 1), 0x1000);
    assert_eq!(heap.alloc_block(32, 1), 0);
}

#[test]
fn push_pop_remove_free_lists() {
    let mut heap = BuddyInner::new();
    heap.push_free(2, 0x100);
    heap.push_free(2, 0x200);
    heap.push_free(2, 0x300);
    assert!(heap.remove_free(2, 0x200));
    assert!(!heap.remove_free(2, 0x200));
    assert_eq!(heap.pop_free(2), 0x300);
    assert_eq!(heap.pop_free(2), 0x100);
    assert_eq!(heap.pop_free(2), 0);
}

#[test]
fn init_drops_tail_shorter_than_a_block() {
    // [32, 72): one 32-byte block at 32; the last 8 bytes hold no block.
    let mut heap = init(32, 40);
    assert_eq!(heap.alloc_block(32, 1), 32);
    assert_eq!(heap.alloc_block(1, 1), 0);
    // [0x1000, 0x1048): a 64-byte block, then an 8-byte tail that is dropped.
    let mut heap = init(0x1000, 72);
    assert_eq!(heap.alloc_block(64, 1), 0x1000);
    assert_eq!(heap.alloc_block(32, 1), 0);
}

#[test]
fn live_allocations_never_overlap() {
    let mut heap = init(0x1000, 1024);
    let mut live: Vec<(usize, usize)> = Vec::new();
    for &size in &[32usize, 100, 64, 200, 32, 48] {
        let p = heap.alloc_block(size, 1);
        assert_ne!(p, 0);
        let len = 1usize << (size_to_order(size) + 5);
        assert_eq!(p % len, 0);
        assert!(p >= 0x1000 && p + len <= 0x1000 + 1024);
        for &(q, qlen) in &live {
            assert!(p + len <= q || q + qlen <= p);
        }
        live.push((p, len));
    }
    // Free one in the middle; the next allocation reuses it and still
    // overlaps none of the others.
    let (freed, flen) = live.remove(1);
    heap.dealloc(freed, 100, 1);
    let p = heap.alloc_block(100, 1);
    assert_eq!(p, freed);
    for &(q, qlen) in &live {
        assert!(p + flen <= q || q + qlen <= p);
    }
}

#[test]
fn pushing_null_empties_the_list() {
    let mut heap = BuddyInner::new();
    heap.push_free(1, 0x100);
    heap.push_free(1, 0);
    assert_eq!(heap.pop_free(1), 0);
    assert!(!heap.remove_free(1, 0x100));
    heap.push_free(1, 0x200);
    assert_eq!(heap.pop_free(1), 0x200);
    assert_eq!(heap.pop_free(1), 0);
}

#[test]
fn heap_at_null_loses_its_first_block() {
    // [0, 96): a 64-byte block at 0 (lost: it would read as null) and a
    // 32-byte block at 64.
    let mut heap = init(0, 96);
    assert_eq!(heap.alloc_block(32, 1), 64);
    assert_eq!(heap.alloc_block(32, 1), 0);
    assert_eq!(heap.alloc_block(64, 1), 0);
    // Freeing the block at 64 does not merge with the lost one at 0.
    heap.dealloc(64, 32, 1);
    assert_eq!(heap.alloc_block(64, 1), 0);
    assert_eq!(heap.alloc_block(32, 1), 64);
}

#[test]
fn unaligned_heap_has_no_block() {
    let mut heap = init(0x1004, 4096);
    assert_eq!(heap.alloc_block(32, 1), 0);
}

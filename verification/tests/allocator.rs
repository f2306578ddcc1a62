use coral::allocator::{align_up, Layout};
use coral::fallback::{FallbackAllocator, ListNode, LIST_NODE_SIZE};
use coral::global_alloc::{can_deallocate, get_head, BlockKind, GlobalAllocator};

#[test]
fn align() {
    // Already aligned
    assert_eq!(align_up(0x1000, 1), 0x1000);
    assert_eq!(align_up(0x1000, 2), 0x1000);
    assert_eq!(align_up(0x1000, 4), 0x1000);
    assert_eq!(align_up(0x1000, 8), 0x1000);

    // Misaligned
    assert_eq!(align_up(0x1001, 2), 0x1002);
    assert_eq!(align_up(0x1001, 4), 0x1004);
    assert_eq!(align_up(0x1002, 4), 0x1004);
    assert_eq!(align_up(0x1003, 4), 0x1004);
    assert_eq!(align_up(0x1007, 8), 0x1008);
}

#[test]
fn align_up_to_a_page() {
    assert_eq!(align_up(0, 0x1000), 0);
    assert_eq!(align_up(1, 0x1000), 0x1000);
    assert_eq!(align_up(0x1fff, 0x1000), 0x2000);
}

#[test]
fn layout_validity() {
    assert!(Layout::from_size_align(16, 8).is_some());
    assert!(Layout::from_size_align(16, 0).is_none());
    assert!(Layout::from_size_align(16, 3).is_none());
    assert!(Layout::from_size_align(isize::MAX as usize, 1).is_some());
    assert!(Layout::from_size_align(isize::MAX as usize, 2).is_none());
    let l = Layout::from_size_align(10, 4).unwrap();
    assert_eq!(l.size(), 10);
    assert_eq!(l.align(), 4);
}

#[test]
fn layout_align_to_and_pad() {
    let l = Layout::from_size_align(10, 4).unwrap();
    let a = l.align_to(8).unwrap();
    assert_eq!(a.align(), 8);
    assert_eq!(a.size(), 10);
    let p = a.pad_to_align();
    assert_eq!(p.size(), 16);
    assert_eq!(p.align(), 8);
    let b = l.align_to(2).unwrap();
    assert_eq!(b.align(), 4);
    let big = Layout::from_size_align(isize::MAX as usize, 1).unwrap();
    assert!(big.align_to(8).is_none());
}

#[test]
fn list_node_bounds() {
    let n = ListNode::new(0x1000, 0x40);
    assert_eq!(n.start_addr(), 0x1000);
    assert_eq!(n.end_addr(), 0x1040);
}

fn heap_allocator() -> FallbackAllocator {
    let mut a = FallbackAllocator::new();
    a.init(0x1000, 0x1000);
    a
}

#[test]
fn fallback_allocates_from_the_heap() {
    let mut a = heap_allocator();
    let l = Layout::from_size_align(24, 8).unwrap();
    let p = a.allocate(l);
    assert_eq!(p, 0x1000);
    let q = a.allocate(l);
    assert_eq!(q, 0x1018);
}

#[test]
fn fallback_rounds_small_blocks_up_to_a_list_node() {
    let mut a = heap_allocator();
    let l = Layout::from_size_align(1, 1).unwrap();
    let p = a.allocate(l);
    let q = a.allocate(l);
    assert_eq!(p, 0x1000);
    assert_eq!(q, 0x1000 + LIST_NODE_SIZE);
}

#[test]
fn fallback_aligns_blocks() {
    let mut a = FallbackAllocator::new();
    a.init(0x1008, 0x1000);
    let l = Layout::from_size_align(32, 32).unwrap();
    let p = a.allocate(l);
    assert_eq!(p % 32, 0);
    assert!(p >= 0x1008);
}

#[test]
fn fallback_dealloc_then_alloc_gives_the_block_back() {
    let mut a = heap_allocator();
    let l = Layout::from_size_align(64, 8).unwrap();
    let p = a.allocate(l);
    let _q = a.allocate(l);
    a.dealloc(p, l);
    assert_eq!(a.allocate(l), p);
}

#[test]
fn fallback_out_of_memory_gives_null() {
    let mut a = heap_allocator();
    let l = Layout::from_size_align(0x2000, 8).unwrap();
    assert_eq!(a.allocate(l), 0);
    let mut empty = FallbackAllocator::new();
    assert_eq!(empty.allocate(Layout::from_size_align(8, 8).unwrap()), 0);
}

#[test]
fn fallback_does_not_leave_a_remainder_too_small_for_a_node() {
    // A region of 24 bytes can not serve 16 bytes: 8 bytes would be left.
    let mut a = FallbackAllocator::new();
    a.init(0x1000, 24);
    assert_eq!(a.allocate(Layout::from_size_align(16, 8).unwrap()), 0);
    assert_eq!(a.allocate(Layout::from_size_align(24, 8).unwrap()), 0x1000);
}

#[test]
fn block_kinds() {
    assert_eq!(BlockKind::Block8.size(), 8);
    assert_eq!(BlockKind::Block2048.align(), 2048);
    assert_eq!(BlockKind::Block64.index(), 3);
    let l = Layout::from_size_align(9, 4).unwrap();
    assert_eq!(get_head(&l), Ok(BlockKind::Block16));
    let l = Layout::from_size_align(4, 64).unwrap();
    assert_eq!(get_head(&l), Ok(BlockKind::Block64));
    let l = Layout::from_size_align(2049, 8).unwrap();
    assert_eq!(get_head(&l), Err(()));
    let l = Layout::from_size_align(0, 1).unwrap();
    assert_eq!(get_head(&l), Ok(BlockKind::Block8));
}

#[test]
fn global_allocator_serves_blocks_from_the_fallback() {
    let mut g = GlobalAllocator::new();
    g.init(0x10000, 0x10000);
    let l = Layout::from_size_align(100, 8).unwrap();
    let p = g.allocate(l);
    assert_eq!(p, 0x10000);
    assert_eq!(p % 128, 0);
    let q = g.allocate(l);
    assert_eq!(q, 0x10000 + 128);
}

#[test]
fn global_allocator_reuses_freed_blocks_last_in_first_out() {
    let mut g = GlobalAllocator::new();
    g.init(0x10000, 0x10000);
    let l = Layout::from_size_align(32, 8).unwrap();
    let a = g.allocate(l);
    let b = g.allocate(l);
    g.dealloc(a, l);
    g.dealloc(b, l);
    assert_eq!(g.allocate(l), b);
    assert_eq!(g.allocate(l), a);
}

#[test]
fn global_allocator_large_blocks_go_to_the_fallback() {
    let mut g = GlobalAllocator::new();
    g.init(0x10000, 0x10000);
    let l = Layout::from_size_align(4096, 8).unwrap();
    let p = g.allocate(l);
    assert_eq!(p, 0x10000);
    g.dealloc(p, l);
    assert_eq!(g.allocate(l), p);
}

#[test]
fn global_allocator_without_heap_gives_null() {
    let mut g = GlobalAllocator::new();
    g.has_all_lists();
    assert_eq!(g.allocate(Layout::from_size_align(8, 8).unwrap()), 0);
}

#[test]
fn user_space_areas_are_whole_pages() {
    let alloc = coral::userspace_alloc::LibcAllocator::new();
    assert_eq!(alloc.nb_pages(0), 1);
    assert_eq!(alloc.nb_pages(4096), 1);
    assert_eq!(alloc.nb_pages(4097), 2);
    assert_eq!(alloc.nb_pages(3 * 4096), 3);
}

#[test]
fn zeroed_tables_take_the_maximum_size() {
    assert_eq!(coral::userspace_alloc::zeroed_table(2, Some(4)), vec![0, 0, 0, 0]);
    assert_eq!(coral::userspace_alloc::zeroed_table(3, None), vec![0, 0, 0]);
}

#[test]
fn fallback_blocks_do_not_overlap() {
    let mut a = FallbackAllocator::new();
    a.init(0x1008, 0x400);
    let sizes = [(24, 8), (32, 32), (100, 16), (8, 64), (40, 8)];
    let mut blocks: Vec<(usize, usize)> = Vec::new();
    for (size, align) in sizes {
        let p = a.allocate(Layout::from_size_align(size, align).unwrap());
        assert_ne!(p, 0);
        assert_eq!(p % align, 0);
        for &(q, s) in blocks.iter() {
            assert!(p + size <= q || q + s <= p);
        }
        blocks.push((p, size));
    }
}

#[test]
fn allocation_checks_tell_what_stays_in_the_address_space() {
    let mut g = GlobalAllocator::new();
    g.init(0x10000, 0x10000);
    let small = Layout::from_size_align(24, 8).unwrap();
    let large = Layout::from_size_align(4096, 8).unwrap();
    assert!(g.can_allocate(&small));
    assert!(g.can_allocate(&large));
    // Blocks of a size class are always accepted back; other blocks must be aligned.
    assert!(can_deallocate(0x10003, &small));
    assert!(can_deallocate(0x10008, &large));
    assert!(!can_deallocate(0x10003, &large));
    assert!(!can_deallocate(usize::MAX - 8, &large));
}

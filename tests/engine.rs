use subheap_alloc::heap::{
    place_external, valid_layout, AllocError, AllocStep, Allocator, FreeStep, Placement,
    DEFAULT_MAX_HEAP_SIZE,
};
use subheap_alloc::layout::{
    aligned_size, block_size_of_subheap, class_of_size, decode_header, HeaderKind, HEADER_SIZE,
    MAX_BLOCK_SIZE, SUBHEAP_COUNT,
};
use subheap_alloc::strategy::{commit_order, decommit_order, CommitStrategy, DecommitStrategy};

const PAGE: usize = 4096;
const BASE: usize = 0x1000_0000;
const EXTERNAL_BASE: usize = 0x7000_0000;

fn new_allocator(max_heap_size: usize) -> Allocator {
    Allocator::init(PAGE, BASE, max_heap_size).unwrap()
}

/// Runs an allocation to its end, committing with the first strategy offered
/// and mapping external regions at `EXTERNAL_BASE`.
fn alloc_payload(a: &mut Allocator, n: usize) -> Result<usize, AllocError> {
    loop {
        match a.alloc_by_size(n)? {
            AllocStep::Reuse { payload } => return Ok(payload),
            AllocStep::Place(pl) => return Ok(pl.payload),
            AllocStep::Commit { addr, len, prefer } => {
                let used = commit_order(prefer)[0];
                a.record_commit(addr, len, used).unwrap();
            }
            AllocStep::MapExternal { len } => {
                return Ok(place_external(EXTERNAL_BASE, len)?.payload);
            }
        }
    }
}

#[test]
fn block_sizes_double_from_sixteen() {
    let expected = [16usize, 32, 64, 128, 256, 512, 1024];
    for c in 0..SUBHEAP_COUNT {
        assert_eq!(block_size_of_subheap(c), expected[c]);
    }
    assert_eq!(block_size_of_subheap(SUBHEAP_COUNT - 1), MAX_BLOCK_SIZE);
}

#[test]
fn aligned_size_rounds_up_to_multiple() {
    assert_eq!(aligned_size(0, 4096), 0);
    assert_eq!(aligned_size(1, 4096), 4096);
    assert_eq!(aligned_size(4096, 4096), 4096);
    assert_eq!(aligned_size(4097, 4096), 8192);
    assert_eq!(aligned_size(40008, 4096), 40960);
    assert_eq!(aligned_size(13, 8), 16);
}

#[test]
fn class_of_size_picks_smallest_fitting_class() {
    assert_eq!(class_of_size(0), 0);
    assert_eq!(class_of_size(1), 0);
    assert_eq!(class_of_size(16), 0);
    assert_eq!(class_of_size(17), 1);
    assert_eq!(class_of_size(64), 2);
    assert_eq!(class_of_size(65), 3);
    assert_eq!(class_of_size(513), 6);
    assert_eq!(class_of_size(1024), 6);
    assert_eq!(class_of_size(5000), 6);
    for n in 1..=MAX_BLOCK_SIZE {
        let c = class_of_size(n);
        assert!(n <= block_size_of_subheap(c));
        if c > 0 {
            assert!(block_size_of_subheap(c - 1) < n);
        }
    }
}

#[test]
fn header_words_classify_by_threshold() {
    assert_eq!(decode_header(0), HeaderKind::Pooled(0));
    assert_eq!(decode_header(6), HeaderKind::Pooled(6));
    assert_eq!(decode_header(7), HeaderKind::Invalid);
    assert_eq!(decode_header(1024), HeaderKind::Invalid);
    assert_eq!(decode_header(1025), HeaderKind::External(1025));
    assert_eq!(decode_header(40960), HeaderKind::External(40960));
}

#[test]
fn header_classification_is_stable() {
    let mut a = new_allocator(1 << 20);
    let step = loop {
        match a.alloc_by_size(100).unwrap() {
            AllocStep::Commit { addr, len, prefer } => a.record_commit(addr, len, prefer).unwrap(),
            s => break s,
        }
    };
    let header = match step {
        AllocStep::Place(pl) => pl.header,
        s => panic!("unexpected step {:?}", s),
    };
    let first = decode_header(header);
    for _ in 0..10 {
        alloc_payload(&mut a, 100).unwrap();
        assert_eq!(decode_header(header), first);
    }
    assert_eq!(first, HeaderKind::Pooled(3));
}

#[test]
fn commit_order_falls_back_from_mprotect() {
    assert_eq!(
        commit_order(CommitStrategy::Mprotect),
        vec![CommitStrategy::Mprotect, CommitStrategy::MmapFixed]
    );
    assert_eq!(commit_order(CommitStrategy::MmapFixed), vec![CommitStrategy::MmapFixed]);
    assert_eq!(
        decommit_order(DecommitStrategy::Mprotect),
        vec![DecommitStrategy::Mprotect, DecommitStrategy::MmapFixed]
    );
    assert_eq!(decommit_order(DecommitStrategy::MmapFixed), vec![DecommitStrategy::MmapFixed]);
}

#[test]
fn init_checks_the_layout() {
    assert!(valid_layout(PAGE, 1 << 20));
    assert!(!valid_layout(0, 1 << 20));
    assert!(!valid_layout(PAGE, 1000));
    assert_eq!(Allocator::init(0, BASE, 1 << 20).err(), Some(AllocError::InvalidLayout));
    assert_eq!(Allocator::init(PAGE, BASE, 1000).err(), Some(AllocError::InvalidLayout));
    assert_eq!(
        Allocator::init(PAGE, usize::MAX - PAGE + 1, 2 * PAGE).err(),
        Some(AllocError::InvalidLayout)
    );
    let a = new_allocator(1 << 20);
    assert_eq!(a.pagesize(), PAGE);
    assert_eq!(a.heap_begin(), BASE);
    assert_eq!(a.heap_end(), BASE + (1 << 20));
    assert_eq!(a.active_heap_end(), BASE);
    assert_eq!(a.committed_heap_end(), BASE);
    assert_eq!(a.prefer_commit_strategy(), CommitStrategy::Mprotect);
    for c in 0..SUBHEAP_COUNT {
        assert_eq!(a.free_count(c), 0);
    }
}

#[test]
fn default_heap_size_is_whole_pages() {
    assert_eq!(DEFAULT_MAX_HEAP_SIZE, 2u64 << 32);
    assert!(valid_layout(PAGE, DEFAULT_MAX_HEAP_SIZE as usize));
}

#[test]
fn first_small_allocation_asks_for_one_page() {
    let mut a = new_allocator(1 << 20);
    let step = a.alloc_by_size(4).unwrap();
    assert_eq!(
        step,
        AllocStep::Commit { addr: BASE, len: PAGE, prefer: CommitStrategy::Mprotect }
    );
    assert_eq!(a.active_heap_end(), BASE);
    assert_eq!(a.committed_heap_end(), BASE);
    a.record_commit(BASE, PAGE, CommitStrategy::MmapFixed).unwrap();
    assert_eq!(a.committed_heap_end(), BASE + PAGE);
    assert_eq!(a.prefer_commit_strategy(), CommitStrategy::MmapFixed);
    let step = a.alloc_by_size(4).unwrap();
    assert_eq!(
        step,
        AllocStep::Place(Placement { header_addr: BASE, header: 0, payload: BASE + HEADER_SIZE })
    );
    assert_eq!(a.active_heap_end(), BASE + HEADER_SIZE + 16);
    match a.alloc_by_size(PAGE).unwrap() {
        AllocStep::MapExternal { len } => assert_eq!(len, 2 * PAGE),
        s => panic!("unexpected step {:?}", s),
    }
}

#[test]
fn commit_length_covers_the_missing_pages() {
    let mut a = new_allocator(1 << 20);
    for _ in 0..3 {
        alloc_payload(&mut a, 1024).unwrap();
    }
    assert_eq!(a.active_heap_end(), BASE + 3 * 1032);
    assert_eq!(a.committed_heap_end(), BASE + PAGE);
    let step = a.alloc_by_size(1024).unwrap();
    assert_eq!(
        step,
        AllocStep::Commit { addr: BASE + PAGE, len: PAGE, prefer: CommitStrategy::Mprotect }
    );
}

#[test]
fn pooled_allocation_uses_smallest_class() {
    let mut a = new_allocator(1 << 20);
    a.record_commit(BASE, PAGE, CommitStrategy::Mprotect).unwrap();
    for (n, class) in [(1usize, 0usize), (16, 0), (17, 1), (100, 3), (1000, 6)] {
        match a.alloc_by_size(n).unwrap() {
            AllocStep::Place(pl) => {
                assert_eq!(pl.header, class);
                assert_eq!(decode_header(pl.header), HeaderKind::Pooled(class));
                assert_eq!(pl.payload, pl.header_addr + HEADER_SIZE);
                assert!(block_size_of_subheap(class) >= n);
            }
            s => panic!("unexpected step {:?}", s),
        }
    }
}

#[test]
fn external_allocation_header_is_page_rounded_size() {
    let mut a = new_allocator(1 << 20);
    let step = a.alloc_by_size(40000).unwrap();
    assert_eq!(step, AllocStep::MapExternal { len: 40960 });
    assert_eq!(a.active_heap_end(), BASE);
    let pl = place_external(EXTERNAL_BASE, 40960).unwrap();
    assert_eq!(pl.header_addr, EXTERNAL_BASE);
    assert_eq!(pl.header, 40960);
    assert_eq!(pl.payload, EXTERNAL_BASE + HEADER_SIZE);
    assert_eq!(decode_header(pl.header), HeaderKind::External(40960));
    assert_eq!(a.alloc_by_size(1025).unwrap(), AllocStep::MapExternal { len: PAGE });
}

#[test]
fn round_trip_free_then_alloc_reuses() {
    let mut a = new_allocator(1 << 20);
    let p = alloc_payload(&mut a, 200).unwrap();
    let active = a.active_heap_end();
    assert_eq!(a.free(p, class_of_size(200)).unwrap(), FreeStep::Pooled);
    assert_eq!(a.free_count(class_of_size(200)), 1);
    assert_eq!(a.alloc_by_size(256).unwrap(), AllocStep::Reuse { payload: p });
    assert_eq!(a.free_count(class_of_size(200)), 0);
    assert_eq!(a.active_heap_end(), active);
}

#[test]
fn freed_blocks_come_back_last_in_first_out() {
    let mut a = new_allocator(1 << 20);
    let p1 = alloc_payload(&mut a, 8).unwrap();
    let p2 = alloc_payload(&mut a, 8).unwrap();
    let q = alloc_payload(&mut a, 300).unwrap();
    a.free(p1, 0).unwrap();
    a.free(p2, 0).unwrap();
    a.free(q, 5).unwrap();
    assert_eq!(alloc_payload(&mut a, 8).unwrap(), p2);
    assert_eq!(alloc_payload(&mut a, 8).unwrap(), p1);
    assert_eq!(alloc_payload(&mut a, 512).unwrap(), q);
}

#[test]
fn cursors_never_move_back() {
    let mut a = new_allocator(1 << 20);
    let mut active = a.active_heap_end();
    let mut committed = a.committed_heap_end();
    let mut live = Vec::new();
    for i in 0..200usize {
        let n = 1 + (i * 37) % 1500;
        let p = alloc_payload(&mut a, n).unwrap();
        if n <= MAX_BLOCK_SIZE {
            live.push((p, class_of_size(n)));
        }
        if i % 3 == 0 {
            if let Some((p, c)) = live.pop() {
                a.free(p, c).unwrap();
            }
        }
        assert!(a.active_heap_end() >= active);
        assert!(a.committed_heap_end() >= committed);
        assert!(a.committed_heap_end() >= a.active_heap_end());
        assert!(a.heap_end() >= a.committed_heap_end());
        active = a.active_heap_end();
        committed = a.committed_heap_end();
    }
}

#[test]
fn largest_class_boundary() {
    let mut a = new_allocator(1 << 20);
    a.record_commit(BASE, PAGE, CommitStrategy::Mprotect).unwrap();
    let n = block_size_of_subheap(SUBHEAP_COUNT - 1);
    match a.alloc_by_size(n).unwrap() {
        AllocStep::Place(pl) => assert_eq!(pl.header, SUBHEAP_COUNT - 1),
        s => panic!("unexpected step {:?}", s),
    }
    match a.alloc_by_size(n + 1).unwrap() {
        AllocStep::MapExternal { len } => assert_eq!(len, PAGE),
        s => panic!("unexpected step {:?}", s),
    }
}

#[test]
fn scenario_two_small_allocations_are_distinct() {
    let mut a = new_allocator(1 << 20);
    let p1 = alloc_payload(&mut a, 4).unwrap();
    let p2 = alloc_payload(&mut a, 4).unwrap();
    assert_ne!(p1, p2);
    assert!(p1 + 4 <= p2 || p2 + 4 <= p1);
    assert!(p1 + 4 <= a.committed_heap_end());
    assert!(p2 + 4 <= a.committed_heap_end());
    assert!(p1 >= BASE + HEADER_SIZE && p2 >= BASE + HEADER_SIZE);
}

#[test]
fn scenario_large_allocation_is_released_on_free() {
    let mut a = new_allocator(1 << 20);
    let p = alloc_payload(&mut a, 40000).unwrap();
    assert_eq!(p, EXTERNAL_BASE + HEADER_SIZE);
    assert_eq!(a.free(p, 40960).unwrap(), FreeStep::Release { addr: EXTERNAL_BASE, len: 40960 });
    assert_eq!(a.active_heap_end(), BASE);
    assert_eq!(a.alloc_by_size(40000).unwrap(), AllocStep::MapExternal { len: 40960 });
}

#[test]
fn scenario_free_then_same_class_reuses_address() {
    let mut a = new_allocator(1 << 20);
    let p = alloc_payload(&mut a, 8).unwrap();
    a.free(p, class_of_size(8)).unwrap();
    let q = alloc_payload(&mut a, 8).unwrap();
    assert_eq!(p, q);
}

#[test]
fn scenario_exhaustion_reports_out_of_address_space() {
    let mut a = new_allocator(2 * PAGE);
    let mut count = 0usize;
    loop {
        match alloc_payload(&mut a, 1024) {
            Ok(_) => count += 1,
            Err(e) => {
                assert_eq!(e, AllocError::OutOfAddressSpace);
                break;
            }
        }
    }
    assert_eq!(count, 2 * PAGE / 1032);
    let active = a.active_heap_end();
    let committed = a.committed_heap_end();
    assert_eq!(a.alloc_by_size(1024), Err(AllocError::OutOfAddressSpace));
    assert_eq!(a.active_heap_end(), active);
    assert_eq!(a.committed_heap_end(), committed);
    assert!(committed <= a.heap_end());
    let small = alloc_payload(&mut a, 16);
    assert!(small.is_ok());
}

#[test]
fn errors_for_bad_input() {
    let mut a = new_allocator(1 << 20);
    assert_eq!(a.alloc_by_size(usize::MAX), Err(AllocError::SizeOverflow));
    assert_eq!(a.alloc_by_size(usize::MAX - 100), Err(AllocError::SizeOverflow));
    assert_eq!(a.free(BASE + 8, 7), Err(AllocError::InvalidHeader));
    assert_eq!(a.free(BASE + 8, MAX_BLOCK_SIZE), Err(AllocError::InvalidHeader));
    assert_eq!(a.free(4, 8192), Err(AllocError::InvalidAddress));
    assert_eq!(a.record_commit(BASE + PAGE, PAGE, CommitStrategy::Mprotect), Err(AllocError::InvalidCommit));
    assert_eq!(a.record_commit(BASE, 100, CommitStrategy::Mprotect), Err(AllocError::InvalidCommit));
    assert_eq!(
        a.record_commit(BASE, (1 << 20) + PAGE, CommitStrategy::Mprotect),
        Err(AllocError::InvalidCommit)
    );
    assert_eq!(a.committed_heap_end(), BASE);
    assert_eq!(place_external(EXTERNAL_BASE, 1024), Err(AllocError::InvalidRegion));
    assert_eq!(place_external(usize::MAX - 4, 8192), Err(AllocError::InvalidAddress));
}

#[test]
fn alloc_value_sizes_by_type() {
    let mut a = new_allocator(1 << 20);
    a.record_commit(BASE, PAGE, CommitStrategy::Mprotect).unwrap();
    match a.alloc_value::<u32>().unwrap() {
        AllocStep::Place(pl) => assert_eq!(pl.header, 0),
        s => panic!("unexpected step {:?}", s),
    }
    match a.alloc_value::<[u64; 100]>().unwrap() {
        AllocStep::Place(pl) => assert_eq!(pl.header, 6),
        s => panic!("unexpected step {:?}", s),
    }
    assert_eq!(
        a.alloc_value::<[i32; 10000]>().unwrap(),
        AllocStep::MapExternal { len: 40960 }
    );
}

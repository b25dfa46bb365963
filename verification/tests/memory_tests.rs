use beyond_os::frame::{BumpFrameAllocator, BootInfoFrameAllocator, FrameAllocator};
use beyond_os::heap::{BumpHeap, init_heap, grow_heap, HEAP_VIRT_START, HEAP_INITIAL_SIZE};
use beyond_os::mem::{
    MemRegion, MemRegionKind, Range, align_up, align_down, align_up_usize, alloc_frame,
    dump_memory_map, u64_to_hex, u64_to_dec, PAGE_SIZE,
};
use beyond_os::paging::{MappingTable, PageMapper};
use beyond_os::errors::CoreError;

fn usable(start: u64, end: u64) -> MemRegion {
    MemRegion { start, end, kind: MemRegionKind::Usable }
}

fn reserved(start: u64, end: u64) -> MemRegion {
    MemRegion { start, end, kind: MemRegionKind::Reserved }
}

#[test]
fn alignment_functions() {
    assert_eq!(align_up(0, 4096), 0);
    assert_eq!(align_up(1, 4096), 4096);
    assert_eq!(align_up(4096, 4096), 4096);
    assert_eq!(align_up(4097, 4096), 8192);
    assert_eq!(align_down(4095, 4096), 0);
    assert_eq!(align_down(4096, 4096), 4096);
    assert_eq!(align_down(8191, 4096), 4096);
    assert_eq!(align_up_usize(17, 16), 32);
    assert_eq!(align_up_usize(16, 16), 16);
}

#[test]
fn range_contains() {
    let r = Range { start: 10, end: 20 };
    assert!(r.contains(10));
    assert!(r.contains(19));
    assert!(!r.contains(20));
    assert!(!r.contains(9));
}

#[test]
fn frame_sequence_end_to_end() {
    // regions [{0,0x10000,Reserved},{0x10000,0x20000,Usable}]: sixteen
    // frames 0x10000..=0x1F000, then exhaustion.
    let regions = vec![reserved(0, 0x10000), usable(0x10000, 0x20000)];
    let mut alloc = BumpFrameAllocator::new(regions);
    for i in 0..16u64 {
        assert_eq!(alloc.alloc_frame(), Some(0x10000 + i * 0x1000));
    }
    assert_eq!(alloc.alloc_frame(), None);
    // exhaustion is terminal
    assert_eq!(alloc.alloc_frame(), None);
}

#[test]
fn reserved_regions_exhaust_immediately() {
    let regions = vec![reserved(0, 0x10000), reserved(0x20000, 0x30000)];
    let mut alloc = BumpFrameAllocator::new(regions);
    assert_eq!(alloc.alloc_frame(), None);
}

#[test]
fn frames_are_aligned_and_increasing() {
    let regions = vec![usable(0x1234, 0x8000), usable(0x9000, 0xB000)];
    let mut alloc = BootInfoFrameAllocator::new(regions);
    let mut last: Option<u64> = None;
    while let Some(f) = alloc.alloc_frame() {
        assert_eq!(f % PAGE_SIZE, 0);
        if let Some(prev) = last {
            assert!(f >= prev + PAGE_SIZE);
        }
        last = Some(f);
    }
    // 0x2000..0x8000 gives six frames, 0x9000..0xB000 gives two
    assert_eq!(last, Some(0xA000));
}

#[test]
fn mem_alloc_frame_first_usable() {
    let regions = vec![reserved(0, 0x10000), usable(0x10000, 0x20000)];
    assert_eq!(alloc_frame(regions), Some(0x10000));
    assert_eq!(alloc_frame(vec![reserved(0, 0x1000)]), None);
}

#[test]
fn mapping_conflicts_are_refused() {
    let mut mapper = MappingTable::new();
    assert!(mapper.map_one_page(0x1000, 0x5000).is_ok());
    assert!(matches!(mapper.map_one_page(0x1000, 0x6000), Err(CoreError::Conflict)));
    // a different page is fine
    assert!(mapper.map_one_page(0x2000, 0x6000).is_ok());
}

#[test]
fn heap_init_and_bump() {
    let mut mapper = MappingTable::new();
    let mut frames = BumpFrameAllocator::new(vec![usable(0x10_0000, 0x200_0000)]);
    let mut heap = init_heap(&mut mapper, &mut frames).unwrap();
    assert_eq!(heap.start, HEAP_VIRT_START);
    assert_eq!(heap.end, HEAP_VIRT_START + HEAP_INITIAL_SIZE);
    assert_eq!(heap.next, HEAP_VIRT_START);

    // two sequential same-layout allocations never overlap
    let a = heap.allocate(100, 8).unwrap();
    let b = heap.allocate(100, 8).unwrap();
    assert_eq!(a % 8, 0);
    assert_eq!(b % 8, 0);
    assert!(b >= a + 100);

    // alignment rounds the start up
    let c = heap.allocate(1, 64).unwrap();
    assert_eq!(c % 64, 0);
    assert!(c >= b + 100);
}

#[test]
fn heap_exhaustion_returns_none() {
    let mut heap = BumpHeap { start: 0x1000, end: 0x2000, next: 0x1000 };
    assert_eq!(heap.allocate(0x1000, 1), Some(0x1000));
    assert_eq!(heap.allocate(1, 1), None);
    // a failed allocation does not move the cursor
    assert_eq!(heap.next, 0x2000);
}

#[test]
fn grow_heap_zero_is_noop() {
    let mut mapper = MappingTable::new();
    let mut frames = BumpFrameAllocator::new(vec![usable(0x10_0000, 0x200_0000)]);
    let mut heap = init_heap(&mut mapper, &mut frames).unwrap();
    let end_before = heap.end;
    grow_heap(&mut heap, 0, &mut mapper, &mut frames).unwrap();
    assert_eq!(heap.end, end_before);
}

#[test]
fn grow_heap_extends_capacity() {
    let mut mapper = MappingTable::new();
    let mut frames = BumpFrameAllocator::new(vec![usable(0x10_0000, 0x200_0000)]);
    let mut heap = init_heap(&mut mapper, &mut frames).unwrap();
    let a = heap.allocate(HEAP_INITIAL_SIZE, 8).unwrap();
    assert!(heap.allocate(1, 1).is_none());

    let end_before = heap.end;
    grow_heap(&mut heap, 100, &mut mapper, &mut frames).unwrap();
    // rounded up to one whole page, strictly increasing capacity
    assert_eq!(heap.end, end_before + PAGE_SIZE);
    // prior allocations stay valid: start and next are untouched
    assert_eq!(heap.start, HEAP_VIRT_START);
    assert!(a + HEAP_INITIAL_SIZE <= heap.next);
    let b = heap.allocate(1, 1).unwrap();
    assert!(b >= a + HEAP_INITIAL_SIZE);
}

#[test]
fn grow_heap_fails_without_frames() {
    let mut mapper = MappingTable::new();
    let mut frames = BumpFrameAllocator::new(vec![usable(0x10_0000, 0x10_1000)]);
    let mut heap = BumpHeap { start: 0x1000, end: 0x1000, next: 0x1000 };
    grow_heap(&mut heap, 0x1000, &mut mapper, &mut frames).unwrap();
    let end_before = heap.end;
    assert!(matches!(
        grow_heap(&mut heap, 0x1000, &mut mapper, &mut frames),
        Err(CoreError::Exhausted)
    ));
    assert_eq!(heap.end, end_before);
}

#[test]
fn hex_and_dec_formatting() {
    assert_eq!(u64_to_hex(0).as_str(), "0000000000000000");
    assert_eq!(u64_to_hex(0x1234_abcd).as_str(), "000000001234abcd");
    assert_eq!(u64_to_hex(u64::MAX).as_str(), "ffffffffffffffff");
    assert_eq!(u64_to_dec(0).as_str(), "0");
    assert_eq!(u64_to_dec(42).as_str(), "42");
    assert_eq!(u64_to_dec(1048576).as_str(), "1048576");
}

#[test]
fn memory_map_report() {
    let regions = vec![usable(0, 0x10000), reserved(0x10000, 0x20000)];
    let lines = dump_memory_map(&regions);
    assert_eq!(lines.len(), 4);
    assert_eq!(lines[0].as_str(), "== memory map ==");
    assert_eq!(
        lines[1].as_str(),
        "0x0000000000000000 - 0x0000000000010000 (64 KiB) Usable"
    );
    assert_eq!(
        lines[2].as_str(),
        "0x0000000000010000 - 0x0000000000020000 (64 KiB) Reserved/Other"
    );
    assert_eq!(lines[3].as_str(), "Usable total: 0 MiB");
}

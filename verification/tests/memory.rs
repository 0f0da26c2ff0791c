use bmos::memory::{find_usable, HeapMapping, MappingStep, MemoryRegion, MemoryRegionKind, PhysicalFrameAllocator, HEAP_SIZE, HEAP_START, PAGE_SIZE, PHYSICAL_LIMIT};

fn region(start: u64, end: u64, kind: MemoryRegionKind) -> MemoryRegion {
    MemoryRegion { start, end, kind }
}

#[test]
fn first_usable_region_is_found() {
    let regions = [
        region(0, 0x1000, MemoryRegionKind::Bootloader),
        region(0x1000, 0x2000, MemoryRegionKind::UnknownBios(2)),
        region(0x2000, 0x9000, MemoryRegionKind::Usable),
        region(0x9000, 0xa000, MemoryRegionKind::UnknownUefi(7)),
        region(0xa000, 0xf000, MemoryRegionKind::Usable),
    ];
    assert_eq!(find_usable(&regions), Some(2));
    assert_eq!(find_usable(&regions[3..]), Some(1));
    assert_eq!(find_usable(&regions[..2]), None);
    assert_eq!(find_usable(&[]), None);
}

#[test]
fn frames_come_in_order_until_the_region_ends() {
    let mut allocator = PhysicalFrameAllocator::new(region(0x10_0000, 0x10_3000, MemoryRegionKind::Usable));
    assert_eq!(allocator.allocate_frame(), Some(0x10_0000));
    assert_eq!(allocator.allocate_frame(), Some(0x10_1000));
    assert_eq!(allocator.allocate_frame(), Some(0x10_2000));
    assert_eq!(allocator.allocate_frame(), None);
    assert_eq!(allocator.allocate_frame(), None);
    assert_eq!(allocator.last_frame, 5);
}

#[test]
fn frames_of_an_unaligned_region_are_aligned_down() {
    let mut allocator = PhysicalFrameAllocator::new(region(0x10_0800, 0x10_2900, MemoryRegionKind::Usable));
    assert_eq!(allocator.allocate_frame(), Some(0x10_0000));
    assert_eq!(allocator.allocate_frame(), Some(0x10_1000));
    assert_eq!(allocator.allocate_frame(), Some(0x10_2000));
    assert_eq!(allocator.allocate_frame(), None);
}

#[test]
fn empty_region_has_no_frame() {
    let mut allocator = PhysicalFrameAllocator::new(region(0x5000, 0x5000, MemoryRegionKind::Usable));
    assert_eq!(allocator.allocate_frame(), None);
    let mut backwards = PhysicalFrameAllocator::new(region(0x5000, 0x1000, MemoryRegionKind::Usable));
    assert_eq!(backwards.allocate_frame(), None);
}

#[test]
fn last_frame_of_the_physical_address_space() {
    let mut allocator = PhysicalFrameAllocator::new(region(PHYSICAL_LIMIT - 0x1800, PHYSICAL_LIMIT, MemoryRegionKind::Usable));
    assert_eq!(allocator.allocate_frame(), Some(PHYSICAL_LIMIT - 0x2000));
    assert_eq!(allocator.allocate_frame(), Some(PHYSICAL_LIMIT - 0x1000));
    assert_eq!(allocator.allocate_frame(), None);
    allocator.last_frame = usize::MAX;
    assert_eq!(allocator.allocate_frame(), None);
    assert_eq!(allocator.last_frame, usize::MAX);
}

#[test]
fn heap_spans_the_pages_of_its_bytes() {
    assert_eq!((HEAP_START, HEAP_SIZE, PAGE_SIZE), (0x1337_1337, 8 * 1024 * 1024, 4096));
    let mapping = HeapMapping::new();
    assert_eq!(mapping.next_page, 0x1337_1000);
    assert_eq!(mapping.last_page, 0x13b7_1000);
}

#[test]
fn heap_is_mapped_page_by_page() {
    let mut mapping = HeapMapping::new();
    let mut allocator = PhysicalFrameAllocator::new(region(0x100_0000, 0x1000_0000, MemoryRegionKind::Usable));
    let mut steps = 0u64;
    loop {
        match mapping.step(&mut allocator) {
            MappingStep::MapPage { page, frame } => {
                assert_eq!(page, 0x1337_1000 + steps * 4096);
                // every second frame went to a page table in between
                assert_eq!(frame, 0x100_0000 + 2 * steps * 4096);
                assert_eq!(allocator.allocate_frame(), Some(frame + 4096));
                steps += 1;
            }
            MappingStep::Done => break,
            MappingStep::OutOfMemory => panic!("the region is large enough"),
        }
    }
    assert_eq!(steps, 2049);
    assert_eq!(mapping.step(&mut allocator), MappingStep::Done);
    assert_eq!(allocator.last_frame, 2 * 2049);
}

#[test]
fn heap_mapping_stops_without_frames() {
    let mut mapping = HeapMapping::new();
    let mut allocator = PhysicalFrameAllocator::new(region(0x1000, 0x3000, MemoryRegionKind::Usable));
    assert_eq!(mapping.step(&mut allocator), MappingStep::MapPage { page: 0x1337_1000, frame: 0x1000 });
    assert_eq!(mapping.step(&mut allocator), MappingStep::MapPage { page: 0x1337_2000, frame: 0x2000 });
    assert_eq!(mapping.step(&mut allocator), MappingStep::OutOfMemory);
    assert_eq!(mapping.next_page, 0x1337_3000);
    assert_eq!(mapping.step(&mut allocator), MappingStep::OutOfMemory);
}

use vstd::prelude::*;

verus! {

/// Size of a page and of a physical frame, in bytes.
pub const PAGE_SIZE: u64 = 4096;

/// First address that no longer fits the 52 bits of a physical address.
pub const PHYSICAL_LIMIT: u64 = 0x10_0000_0000_0000;

/// Start of the kernel heap's virtual range.
pub const HEAP_START: u64 = 0x1337_1337;

/// Size of the kernel heap: eight megabytes.
pub const HEAP_SIZE: u64 = 8192 * 1024;

/// A virtual address is canonical when bits 47 to 63 are all equal: it lies
/// in the lower or in the upper half of the address space, outside the gap.
pub open spec fn canonical(addr: u64) -> bool {
    addr < 0x0000_8000_0000_0000 || addr >= 0xffff_8000_0000_0000
}

/// The start of the 4 KiB block that holds `addr`.
pub open spec fn align_down(addr: u64) -> u64 {
    (addr - addr % 4096) as u64
}

/// Calls `x86_64::VirtAddr::try_new` and reports whether it accepted the
/// address. The crate accepts exactly the canonical addresses.
#[verifier::external_body]
pub(crate) fn virt_addr_valid(addr: u64) -> (ok: bool)
    ensures
        ok == canonical(addr),
{
    x86_64::VirtAddr::try_new(addr).is_ok()
}

/// Adds an offset to a virtual address with the `+` of `x86_64::VirtAddr`.
/// The crate panics on overflow and on a result inside the address gap, so
/// both are excluded; otherwise the result is the plain sum.
#[verifier::external_body]
pub(crate) fn virt_addr_add(addr: u64, offset: u64) -> (sum: u64)
    requires
        canonical(addr),
        addr + offset <= u64::MAX,
        canonical((addr + offset) as u64),
    ensures
        sum == addr + offset,
{
    (x86_64::VirtAddr::new(addr) + offset).as_u64()
}

/// Start address of the 4 KiB page that `x86_64`'s
/// `Page::containing_address` finds for a canonical address: the address
/// rounded down to a multiple of the page size.
#[verifier::external_body]
pub(crate) fn page_containing(addr: u64) -> (start: u64)
    requires
        canonical(addr),
    ensures
        start == align_down(addr),
{
    x86_64::structures::paging::Page::<x86_64::structures::paging::Size4KiB>::containing_address(
        x86_64::VirtAddr::new(addr),
    ).start_address().as_u64()
}

/// Start address of the 4 KiB frame that `x86_64`'s
/// `PhysFrame::containing_address` finds for a physical address: the address
/// rounded down to a multiple of the frame size. `PhysAddr::new` panics on an
/// address of more than 52 bits, which is excluded.
#[verifier::external_body]
pub(crate) fn frame_containing(addr: u64) -> (start: u64)
    requires
        addr < PHYSICAL_LIMIT,
    ensures
        start == align_down(addr),
{
    x86_64::structures::paging::PhysFrame::<x86_64::structures::paging::Size4KiB>::containing_address(
        x86_64::PhysAddr::new(addr),
    ).start_address().as_u64()
}

/// What a region of physical memory is used for.
#[derive(Debug, Clone, Copy, PartialEq, Eq, Structural)]
pub enum MemoryRegionKind {
    /// Free for the kernel to use.
    Usable,
    /// In use by the boot loader.
    Bootloader,
    /// A kind that the UEFI firmware reported.
    UnknownUefi(u32),
    /// A kind that the BIOS reported.
    UnknownBios(u32),
}

/// A region of physical memory, from `start` up to `end`.
#[derive(Debug, Clone, Copy, PartialEq, Eq, Structural)]
pub struct MemoryRegion {
    pub start: u64,
    pub end: u64,
    pub kind: MemoryRegionKind,
}

/// Place of the first usable region at or after `from`, or the number of
/// regions.
pub open spec fn first_usable(regions: Seq<MemoryRegion>, from: int) -> int
    decreases regions.len() - from,
{
    if 0 <= from < regions.len() && regions[from].kind != MemoryRegionKind::Usable {
        first_usable(regions, from + 1)
    } else {
        from
    }
}

/// Finds the first usable region of the memory map.
pub fn find_usable(regions: &[MemoryRegion]) -> (found: Option<usize>)
    ensures
        found is Some <==> first_usable(regions@, 0) < regions@.len(),
        found is Some ==> found.unwrap() == first_usable(regions@, 0),
{
    let mut index: usize = 0;
    while index < regions.len()
        invariant
            index <= regions@.len(),
            first_usable(regions@, 0) == first_usable(regions@, index as int),
        decreases regions@.len() - index,
    {
        match regions[index].kind {
            MemoryRegionKind::Usable => {
                return Some(index);
            },
            _ => {},
        }
        index += 1;
    }
    None
}

/// Hands out the frames of one usable region, one after the other and
/// none twice.
pub struct PhysicalFrameAllocator {
    pub usable_region: MemoryRegion,
    pub last_frame: usize,
}

/// Address that the `index`-th frame of a region is found by: so many
/// frame sizes behind the region's start.
pub open spec fn frame_address(region: MemoryRegion, index: int) -> int {
    region.start + 4096 * index
}

/// The `index`-th frame of a region: the frame that holds its address, if
/// that lies in the region.
pub open spec fn frame_of(region: MemoryRegion, index: int) -> Option<u64> {
    if region.start <= frame_address(region, index) < region.end {
        Some(align_down(frame_address(region, index) as u64))
    } else {
        None
    }
}

impl PhysicalFrameAllocator {
    /// An allocator that has handed out nothing of the region yet.
    pub fn new(usable_region: MemoryRegion) -> (allocator: Self)
        ensures
            allocator.usable_region == usable_region,
            allocator.last_frame == 0,
    {
        PhysicalFrameAllocator { usable_region, last_frame: 0 }
    }

    /// Hands out the next frame of the region, or nothing when the region
    /// is used up. The region must lie within the physical address space.
    pub fn allocate_frame(&mut self) -> (frame: Option<u64>)
        requires
            old(self).usable_region.end <= PHYSICAL_LIMIT,
        ensures
            frame == frame_of(old(self).usable_region, old(self).last_frame as int),
            final(self).usable_region == old(self).usable_region,
            final(self).last_frame == if old(self).last_frame < usize::MAX {
                old(self).last_frame + 1
            } else {
                old(self).last_frame as int
            },
    {
        let address: u128 = self.usable_region.start as u128 + 4096u128 * self.last_frame as u128;
        let frame_start = if address < self.usable_region.end as u128 {
            Some(frame_containing(address as u64))
        } else {
            None
        };
        if self.last_frame < usize::MAX {
            self.last_frame += 1;
        }
        frame_start
    }
}

/// No frame is handed out twice: of two frames of a region, the later one
/// starts at least a frame's size behind the earlier.
pub proof fn law_frames_are_distinct(region: MemoryRegion, earlier: int, later: int)
    requires
        0 <= earlier < later,
        frame_of(region, earlier) is Some,
        frame_of(region, later) is Some,
    ensures
        frame_of(region, earlier).unwrap() + 4096 <= frame_of(region, later).unwrap(),
{
    let a = frame_address(region, earlier);
    let b = frame_address(region, later);
    assert(a + 4096 <= b);
    assert(a - a % 4096 + 4096 <= b - b % 4096) by {
        assert(a == 4096 * (a / 4096) + a % 4096) by {
            vstd::arithmetic::div_mod::lemma_fundamental_div_mod(a, 4096);
        }
        assert(b == 4096 * (b / 4096) + b % 4096) by {
            vstd::arithmetic::div_mod::lemma_fundamental_div_mod(b, 4096);
        }
        assert(a / 4096 + 1 <= b / 4096) by {
            vstd::arithmetic::div_mod::lemma_div_is_ordered(a + 4096, b, 4096);
            vstd::arithmetic::div_mod::lemma_div_plus_one(a, 4096);
        }
    }
}

/// Every frame that is handed out lies on a frame boundary and holds an
/// address of the region.
pub proof fn law_frame_holds_region_address(region: MemoryRegion, index: int)
    requires
        0 <= index,
        frame_of(region, index) is Some,
    ensures
        frame_of(region, index).unwrap() % 4096 == 0,
        frame_of(region, index).unwrap() <= frame_address(region, index) < frame_of(
            region,
            index,
        ).unwrap() + 4096,
        frame_address(region, index) < region.end,
{
}

/// What is to be done next while the kernel heap is mapped.
#[derive(Debug, Clone, Copy, PartialEq, Eq, Structural)]
pub enum MappingStep {
    /// Map the page to the frame.
    MapPage { page: u64, frame: u64 },
    /// No frame is left: the heap cannot be mapped.
    OutOfMemory,
    /// Every page of the heap is mapped.
    Done,
}

/// The pages of the kernel heap that are still to be mapped.
#[derive(Debug, Clone, Copy, PartialEq, Eq, Structural)]
pub struct HeapMapping {
    /// Start of the next page to map.
    pub next_page: u64,
    /// Start of the last page of the heap.
    pub last_page: u64,
}

impl HeapMapping {
    /// Both pages lie on page boundaries, in the lower half of the address
    /// space.
    pub open spec fn wf(&self) -> bool {
        &&& self.next_page % 4096 == 0
        &&& self.last_page % 4096 == 0
        &&& self.last_page < 0x0000_7fff_ffff_f000
    }

    /// The whole heap, from the page that holds its first byte to the page
    /// that holds its last.
    pub fn new() -> (mapping: HeapMapping)
        ensures
            mapping.wf(),
            mapping.next_page == align_down(HEAP_START),
            mapping.last_page == align_down((HEAP_START + HEAP_SIZE - 1) as u64),
    {
        let first = page_containing(HEAP_START);
        let last = page_containing(virt_addr_add(HEAP_START, HEAP_SIZE - 1));
        HeapMapping { next_page: first, last_page: last }
    }

    /// Number of pages that are still to be mapped.
    pub open spec fn remaining(&self) -> int {
        if self.next_page <= self.last_page {
            (self.last_page - self.next_page) / 4096 + 1
        } else {
            0
        }
    }

    /// Takes the next page of the heap and a frame for it. Without a frame
    /// the mapping stays where it is.
    pub fn step(&mut self, allocator: &mut PhysicalFrameAllocator) -> (step: MappingStep)
        requires
            old(self).wf(),
            old(allocator).usable_region.end <= PHYSICAL_LIMIT,
        ensures
            final(self).wf(),
            final(self).last_page == old(self).last_page,
            final(allocator).usable_region == old(allocator).usable_region,
            old(self).remaining() == 0 ==> step == MappingStep::Done && *final(self) == *old(self)
                && *final(allocator) == *old(allocator),
            old(self).remaining() > 0 ==> final(allocator).last_frame == if old(allocator).last_frame < usize::MAX {
                old(allocator).last_frame + 1
            } else {
                old(allocator).last_frame as int
            },
            old(self).remaining() > 0 ==> match frame_of(
                old(allocator).usable_region,
                old(allocator).last_frame as int,
            ) {
                Some(frame) => step == (MappingStep::MapPage { page: old(self).next_page, frame })
                    && final(self).next_page == old(self).next_page + 4096 && final(self).remaining() == old(self).remaining() - 1,
                None => step == MappingStep::OutOfMemory && *final(self) == *old(self),
            },
    {
        if self.next_page > self.last_page {
            return MappingStep::Done;
        }
        match allocator.allocate_frame() {
            Some(frame) => {
                let page = self.next_page;
                self.next_page = virt_addr_add(page, PAGE_SIZE);
                MappingStep::MapPage { page, frame }
            },
            None => MappingStep::OutOfMemory,
        }
    }
}

} // verus!

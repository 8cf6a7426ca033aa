use vstd::prelude::*;

verus! {

/// log2 of the page size that the page tables and memory windows work in.
pub const MMU_PAGE_SHIFT: usize = 14;
/// Page size of the page tables and memory windows (16 KiB).
pub const MMU_PAGE_SIZE: usize = 0x4000;

/// Guest address span that each CPU's memory window covers.
pub const V_MEM_ARM9_RANGE: u32 = 0x1000_0000;
pub const V_MEM_ARM7_RANGE: u32 = 0x1000_0000;
/// Number of pages, hence of page-table entries, of one window.
pub const MMU_PAGE_COUNT: usize = 0x4000;

/// Mask that selects the region bits of a guest address.
pub const REGION_BITS_MASK: u32 = 0x0F00_0000;

pub const ITCM_OFFSET: u32 = 0x0000_0000;
pub const MAIN_OFFSET: u32 = 0x0200_0000;
pub const SHARED_WRAM_OFFSET: u32 = 0x0300_0000;
pub const ARM7_WRAM_OFFSET: u32 = 0x0380_0000;
pub const IO_PORTS_OFFSET: u32 = 0x0400_0000;

pub const ITCM_SIZE: usize = 0x8000;
pub const DTCM_SIZE: usize = 0x4000;
pub const MAIN_SIZE: usize = 0x40_0000;
pub const SHARED_WRAM_SIZE: usize = 0x8000;
pub const ARM7_WRAM_SIZE: usize = 0x1_0000;

/// Layout of the shared backing arena. Offset 0 holds no region: a page-table
/// entry of 0 means "no access".
pub const ITCM_SHM_OFFSET: usize = 0x4000;
pub const DTCM_SHM_OFFSET: usize = 0xC000;
pub const MAIN_SHM_OFFSET: usize = 0x1_0000;
pub const SHARED_WRAM_SHM_OFFSET: usize = 0x41_0000;
pub const ARM7_WRAM_SHM_OFFSET: usize = 0x41_8000;
/// Total size of the shared backing arena.
pub const SHM_SIZE: usize = 0x42_8000;

/// A physical memory region: the guest span `[start, end)` is backed by
/// `size` bytes of the arena at `shm_offset`, mirrored every `size` bytes.
#[derive(Clone, Copy, PartialEq, Eq, Structural, Debug)]
pub struct MemRegion {
    pub start: usize,
    pub end: usize,
    pub size: usize,
    pub shm_offset: usize,
    pub allow_write: bool,
}

pub open spec fn is_page_aligned(a: int) -> bool {
    a % (MMU_PAGE_SIZE as int) == 0
}

impl MemRegion {
    /// A region is page-granular: it starts and ends on pages of the window,
    /// its mirror period is a whole number of pages, and its backing lies in the arena.
    pub open spec fn wf(&self) -> bool {
        &&& is_page_aligned(self.start as int)
        &&& is_page_aligned(self.end as int)
        &&& self.start < self.end <= V_MEM_ARM9_RANGE
        &&& self.size >= MMU_PAGE_SIZE
        &&& self.size % MMU_PAGE_SIZE == 0
        &&& 0 < self.shm_offset
        &&& self.shm_offset + self.size <= SHM_SIZE
    }

    /// The offset into the region's backing that guest address `a` reaches.
    pub open spec fn backing_offset(&self, a: int) -> int {
        self.shm_offset + (a - self.start) % (self.size as int)
    }

    /// Whether guest address `a` is one of the mirrors, within the region, of
    /// the page that holds guest address `addr`.
    pub open spec fn is_page_alias(&self, addr: int, a: int) -> bool {
        &&& self.start <= a < self.end
        &&& (a - self.start) % (self.size as int) / (MMU_PAGE_SIZE as int)
            == (addr - self.start) % (self.size as int) / (MMU_PAGE_SIZE as int)
    }

    pub fn new(start: usize, end: usize, size: usize, shm_offset: usize, allow_write: bool) -> (r: Self)
        ensures
            r == (MemRegion { start, end, size, shm_offset, allow_write }),
    {
        MemRegion { start, end, size, shm_offset, allow_write }
    }
}

pub open spec fn spec_main_region() -> MemRegion {
    MemRegion {
        start: MAIN_OFFSET as usize,
        end: SHARED_WRAM_OFFSET as usize,
        size: MAIN_SIZE,
        shm_offset: MAIN_SHM_OFFSET,
        allow_write: true,
    }
}

pub open spec fn spec_shared_wram_region() -> MemRegion {
    MemRegion {
        start: SHARED_WRAM_OFFSET as usize,
        end: ARM7_WRAM_OFFSET as usize,
        size: SHARED_WRAM_SIZE,
        shm_offset: SHARED_WRAM_SHM_OFFSET,
        allow_write: true,
    }
}

pub open spec fn spec_arm7_wram_region() -> MemRegion {
    MemRegion {
        start: ARM7_WRAM_OFFSET as usize,
        end: IO_PORTS_OFFSET as usize,
        size: ARM7_WRAM_SIZE,
        shm_offset: ARM7_WRAM_SHM_OFFSET,
        allow_write: true,
    }
}

pub open spec fn spec_itcm_region() -> MemRegion {
    MemRegion {
        start: ITCM_OFFSET as usize,
        end: MAIN_OFFSET as usize,
        size: ITCM_SIZE,
        shm_offset: ITCM_SHM_OFFSET,
        allow_write: true,
    }
}

/// Main memory: 4 MiB mirrored over its whole 16 MiB band.
pub fn main_region() -> (r: MemRegion)
    ensures
        r == spec_main_region(),
        r.wf(),
{
    MemRegion::new(MAIN_OFFSET as usize, SHARED_WRAM_OFFSET as usize, MAIN_SIZE, MAIN_SHM_OFFSET, true)
}

/// Shared work RAM as a whole: 32 KiB mirrored over the lower half of its band.
pub fn shared_wram_region() -> (r: MemRegion)
    ensures
        r == spec_shared_wram_region(),
        r.wf(),
{
    MemRegion::new(SHARED_WRAM_OFFSET as usize, ARM7_WRAM_OFFSET as usize, SHARED_WRAM_SIZE, SHARED_WRAM_SHM_OFFSET, true)
}

/// The second CPU's private work RAM: 64 KiB mirrored over the upper half of the band.
pub fn arm7_wram_region() -> (r: MemRegion)
    ensures
        r == spec_arm7_wram_region(),
        r.wf(),
{
    MemRegion::new(ARM7_WRAM_OFFSET as usize, IO_PORTS_OFFSET as usize, ARM7_WRAM_SIZE, ARM7_WRAM_SHM_OFFSET, true)
}

/// Instruction TCM: 32 KiB, mirrored from guest address 0 up to the configured size.
pub fn itcm_region() -> (r: MemRegion)
    ensures
        r == spec_itcm_region(),
        r.wf(),
{
    MemRegion::new(ITCM_OFFSET as usize, MAIN_OFFSET as usize, ITCM_SIZE, ITCM_SHM_OFFSET, true)
}

} // verus!

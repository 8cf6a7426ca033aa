use vstd::prelude::*;
use crate::cpu::CpuType;
use crate::emu::Emu;
use crate::jit_memory_map::JitMemoryMap;
use crate::regions::{
    is_page_aligned, main_region, MemRegion, DTCM_SHM_OFFSET, DTCM_SIZE, IO_PORTS_OFFSET,
    ITCM_OFFSET, ITCM_SHM_OFFSET, ITCM_SIZE, MAIN_OFFSET, MAIN_SHM_OFFSET, MAIN_SIZE, MMU_PAGE_COUNT, MMU_PAGE_SIZE,
    REGION_BITS_MASK, SHARED_WRAM_OFFSET, SHM_SIZE, V_MEM_ARM9_RANGE,
};
use crate::vmem::{in_region_pages, is_alias_page, region_page, revoked, PageMap, VirtualMem, lemma_region_page_offset};
use crate::wram::{spec_wram_offset, Wram};

verus! {

/// Access state of a tightly-coupled memory.
#[derive(Clone, Copy, PartialEq, Eq, Structural, Debug)]
pub enum TcmState {
    Disabled,
    W,
    RW,
}

/// Placement of the two tightly-coupled memories of the first CPU.
#[derive(Clone, Copy, PartialEq, Eq, Structural, Debug)]
pub struct Cp15 {
    pub itcm_size: u32,
    pub itcm_state: TcmState,
    pub dtcm_addr: u32,
    pub dtcm_size: u32,
    pub dtcm_state: TcmState,
}

impl Cp15 {
    /// The windows are whole pages of the guest address space.
    pub open spec fn wf(&self) -> bool {
        &&& is_page_aligned(self.itcm_size as int)
        &&& self.itcm_size <= V_MEM_ARM9_RANGE
        &&& is_page_aligned(self.dtcm_addr as int)
        &&& is_page_aligned(self.dtcm_size as int)
        &&& self.dtcm_addr + self.dtcm_size <= V_MEM_ARM9_RANGE
    }
}

/// What a page resolves to: the read and write table entries and the page of
/// the memory window.
#[derive(Clone, Copy, PartialEq, Eq, Structural, Debug)]
pub struct PageEntry {
    pub read: usize,
    pub write: usize,
    pub map: Option<PageMap>,
}

/// A page's table entries agree with its window page: a non-zero read entry
/// is a readable mapping of that arena offset, a non-zero write entry is a
/// writable one, and a writable mapping always has a write entry.
pub open spec fn page_agrees(e: PageEntry) -> bool {
    &&& e.read != 0 ==> e.map is Some && e.map->0.read && e.map->0.offset == e.read
    &&& e.write != 0 ==> e.write == e.read && e.map is Some && e.map->0.write
    &&& (e.map is Some && e.map->0.write) ==> e.write != 0
    &&& e.map is Some ==> e.map->0.offset + MMU_PAGE_SIZE <= SHM_SIZE
}

pub open spec fn entry_at(read: Seq<usize>, write: Seq<usize>, vm: Seq<Option<PageMap>>, p: int) -> PageEntry {
    PageEntry { read: read[p], write: write[p], map: vm[p] }
}

/// The read table, write table and window of one address space never diverge.
pub open spec fn tables_agree(read: Seq<usize>, write: Seq<usize>, vm: Seq<Option<PageMap>>) -> bool {
    &&& read.len() == MMU_PAGE_COUNT
    &&& write.len() == MMU_PAGE_COUNT
    &&& vm.len() == MMU_PAGE_COUNT
    &&& forall|p: int| 0 <= p < MMU_PAGE_COUNT ==> page_agrees(#[trigger] entry_at(read, write, vm, p))
}

pub open spec fn no_entry() -> PageEntry {
    PageEntry { read: 0, write: 0, map: None }
}

/// Backing of a main-memory page, writable unless it holds compiled code.
pub open spec fn main_entry(jit: JitMemoryMap, addr: u32) -> PageEntry {
    let o = (MAIN_SHM_OFFSET + (addr as int) % (MAIN_SIZE as int)) as usize;
    let w = !jit.spec_has_jit_block(addr as int);
    PageEntry { read: o, write: if w { o } else { 0 }, map: Some(PageMap { offset: o, read: true, write: w }) }
}

/// A work-RAM page of the first CPU: read-write where banked in, mapped
/// without access where not.
pub open spec fn wram_arm9_entry(wram: Wram, addr: u32) -> PageEntry {
    let o = spec_wram_offset(wram.cnt, CpuType::ARM9, addr);
    if o == usize::MAX {
        PageEntry { read: 0, write: 0, map: Some(PageMap { offset: 0, read: false, write: false }) }
    } else {
        PageEntry { read: o, write: o, map: Some(PageMap { offset: o, read: true, write: true }) }
    }
}

/// The first CPU's plain window, for a page in the main-memory or work-RAM band.
pub open spec fn arm9_entry(wram: Wram, addr: u32) -> PageEntry {
    if addr < SHARED_WRAM_OFFSET {
        main_rw_entry(addr)
    } else {
        wram_arm9_entry(wram, addr)
    }
}

/// The second CPU's window, for a page in the main-memory or work-RAM band.
pub open spec fn arm7_entry(wram: Wram, jit: JitMemoryMap, addr: u32) -> PageEntry {
    if addr < SHARED_WRAM_OFFSET {
        main_rw_entry(addr)
    } else {
        wram_arm7_entry(wram, jit, addr)
    }
}

/// A main-memory page of a plain window: always read-write.
pub open spec fn main_rw_entry(addr: u32) -> PageEntry {
    let o = (MAIN_SHM_OFFSET + (addr as int) % (MAIN_SIZE as int)) as usize;
    PageEntry { read: o, write: o, map: Some(PageMap { offset: o, read: true, write: true }) }
}

/// A work-RAM page of the second CPU: always banked in, writable unless it holds compiled code.
pub open spec fn wram_arm7_entry(wram: Wram, jit: JitMemoryMap, addr: u32) -> PageEntry {
    let o = spec_wram_offset(wram.cnt, CpuType::ARM7, addr);
    let w = !jit.spec_has_jit_block(addr as int);
    PageEntry { read: o, write: if w { o } else { 0 }, map: Some(PageMap { offset: o, read: true, write: w }) }
}

/// The first CPU's TCM-aware window for a page, before the TCMs are laid over it.
pub open spec fn tcm_base_entry(wram: Wram, jit: JitMemoryMap, addr: u32) -> PageEntry {
    let band = addr & REGION_BITS_MASK;
    if band == MAIN_OFFSET {
        main_entry(jit, addr)
    } else if band == SHARED_WRAM_OFFSET {
        wram_arm9_entry(wram, addr)
    } else {
        no_entry()
    }
}

/// The first CPU's TCM-aware window for a page: an enabled TCM wins over what lies beneath.
pub open spec fn tcm_entry(cp15: Cp15, wram: Wram, jit: JitMemoryMap, addr: u32) -> PageEntry {
    if addr < cp15.itcm_size {
        if cp15.itcm_state == TcmState::RW {
            let o = (ITCM_SHM_OFFSET + (addr as int) % (ITCM_SIZE as int)) as usize;
            let w = !jit.spec_has_jit_block(addr as int);
            PageEntry { read: o, write: if w { o } else { 0 }, map: Some(PageMap { offset: o, read: true, write: w }) }
        } else {
            tcm_base_entry(wram, jit, addr)
        }
    } else if cp15.dtcm_addr <= addr < cp15.dtcm_addr + cp15.dtcm_size {
        if cp15.dtcm_state == TcmState::RW {
            let o = (DTCM_SHM_OFFSET + (addr - cp15.dtcm_addr) % (DTCM_SIZE as int)) as usize;
            PageEntry { read: o, write: o, map: Some(PageMap { offset: o, read: true, write: true }) }
        } else if cp15.dtcm_state == TcmState::W {
            no_entry()
        } else {
            tcm_base_entry(wram, jit, addr)
        }
    } else {
        tcm_base_entry(wram, jit, addr)
    }
}

pub proof fn lemma_aligned_offsets(a: u32)
    requires
        a % 0x4000 == 0,
    ensures
        a % 0x8000 + 0x4000 <= 0x8000,
        a % 0x1_0000 + 0x4000 <= 0x1_0000,
        a % 0x40_0000 + 0x4000 <= 0x40_0000,
        (a % 0x100_0000) % 0x40_0000 == a % 0x40_0000,
        (a % 0x100_0000) % 0x8000 == a % 0x8000,
        a & 0x0F00_0000 == 0x0200_0000 ==> 0x0200_0000 <= a < 0x0300_0000 || a >= 0x1000_0000,
        a & 0x0F00_0000 == 0x0300_0000 ==> 0x0300_0000 <= a < 0x0400_0000 || a >= 0x1000_0000,
{
    assert(a % 0x8000 + 0x4000 <= 0x8000) by (bit_vector)
        requires a % 0x4000 == 0;
    assert(a % 0x1_0000 + 0x4000 <= 0x1_0000) by (bit_vector)
        requires a % 0x4000 == 0;
    assert(a % 0x40_0000 + 0x4000 <= 0x40_0000) by (bit_vector)
        requires a % 0x4000 == 0;
    assert((a % 0x100_0000) % 0x40_0000 == a % 0x40_0000) by (bit_vector);
    assert((a % 0x100_0000) % 0x8000 == a % 0x8000) by (bit_vector);
    assert(a & 0x0F00_0000 == 0x0200_0000 ==> 0x0200_0000 <= a < 0x0300_0000 || a >= 0x1000_0000) by (bit_vector);
    assert(a & 0x0F00_0000 == 0x0300_0000 ==> 0x0300_0000 <= a < 0x0400_0000 || a >= 0x1000_0000) by (bit_vector);
}

pub proof fn lemma_main_offsets(a: u32)
    requires
        0x0200_0000 <= a < 0x0300_0000,
    ensures
        (a - 0x0200_0000) as u32 % 0x40_0000 == a % 0x40_0000,
{
    assert((a - 0x0200_0000) as u32 % 0x40_0000 == a % 0x40_0000) by (bit_vector)
        requires 0x0200_0000 <= a < 0x0300_0000;
}

pub proof fn lemma_aligned_sub(a: u32, d: u32)
    requires
        a % 0x4000 == 0,
        d % 0x4000 == 0,
        d <= a,
    ensures
        (a - d) as u32 % 0x4000 == 0,
{
    assert((a - d) as u32 % 0x4000 == 0) by (bit_vector)
        requires a % 0x4000 == 0, d % 0x4000 == 0, d <= a;
}

/// Every page entry that the rebuilds produce keeps tables and window in agreement.
pub proof fn lemma_entries_agree(cp15: Cp15, wram: Wram, jit: JitMemoryMap, addr: u32)
    requires
        cp15.wf(),
        is_page_aligned(addr as int),
        addr < V_MEM_ARM9_RANGE,
    ensures
        page_agrees(tcm_entry(cp15, wram, jit, addr)),
        page_agrees(tcm_base_entry(wram, jit, addr)),
        page_agrees(main_entry(jit, addr)),
        page_agrees(wram_arm9_entry(wram, addr)),
        page_agrees(arm9_entry(wram, addr)),
        page_agrees(arm7_entry(wram, jit, addr)),
        page_agrees(main_rw_entry(addr)),
        page_agrees(wram_arm7_entry(wram, jit, addr)),
{
    lemma_aligned_offsets(addr);
    if cp15.dtcm_addr <= addr {
        lemma_aligned_sub(addr, cp15.dtcm_addr);
    }
}

pub proof fn lemma_tables_agree_update(read: Seq<usize>, write: Seq<usize>, vm: Seq<Option<PageMap>>, p: int, e: PageEntry)
    requires
        tables_agree(read, write, vm),
        page_agrees(e),
        0 <= p < MMU_PAGE_COUNT,
    ensures
        tables_agree(read.update(p, e.read), write.update(p, e.write), vm.update(p, e.map)),
        entry_at(read.update(p, e.read), write.update(p, e.write), vm.update(p, e.map), p) == e,
        forall|q: int|
            0 <= q < MMU_PAGE_COUNT && q != p ==> #[trigger] entry_at(
                read.update(p, e.read),
                write.update(p, e.write),
                vm.update(p, e.map),
                q,
            ) == entry_at(read, write, vm, q),
{
    let r2 = read.update(p, e.read);
    let w2 = write.update(p, e.write);
    let v2 = vm.update(p, e.map);
    assert forall|q: int| 0 <= q < MMU_PAGE_COUNT implies page_agrees(#[trigger] entry_at(r2, w2, v2, q)) by {
        if q != p {
            assert(entry_at(r2, w2, v2, q) == entry_at(read, write, vm, q));
        } else {
            assert(entry_at(r2, w2, v2, q) == e);
        }
    }
}

/// Page tables and memory windows of the first CPU: one plain window, and one
/// with the tightly-coupled memories laid over it.
pub struct MmuArm9 {
    pub vmem: VirtualMem,
    pub vmem_tcm: VirtualMem,
    pub mmu_read: Vec<usize>,
    pub mmu_write: Vec<usize>,
    pub mmu_read_tcm: Vec<usize>,
    pub mmu_write_tcm: Vec<usize>,
    pub current_itcm_size: u32,
    pub current_dtcm_addr: u32,
    pub current_dtcm_size: u32,
}

impl MmuArm9 {
    /// The two windows sit at different host addresses.
    pub open spec fn wf(&self) -> bool {
        &&& self.vmem.wf()
        &&& self.vmem_tcm.wf()
        &&& self.vmem.spec_base() != self.vmem_tcm.spec_base()
        &&& tables_agree(self.mmu_read@, self.mmu_write@, self.vmem@)
        &&& tables_agree(self.mmu_read_tcm@, self.mmu_write_tcm@, self.vmem_tcm@)
        &&& is_page_aligned(self.current_itcm_size as int)
        &&& self.current_itcm_size <= V_MEM_ARM9_RANGE
        &&& is_page_aligned(self.current_dtcm_addr as int)
        &&& is_page_aligned(self.current_dtcm_size as int)
        &&& self.current_dtcm_addr + self.current_dtcm_size <= V_MEM_ARM9_RANGE
    }

    pub open spec fn plain_entry(&self, p: int) -> PageEntry {
        entry_at(self.mmu_read@, self.mmu_write@, self.vmem@, p)
    }

    pub open spec fn tcm_page_entry(&self, p: int) -> PageEntry {
        entry_at(self.mmu_read_tcm@, self.mmu_write_tcm@, self.vmem_tcm@, p)
    }

    /// Empty tables and windows; the windows sit at host addresses `base` and `tcm_base`.
    pub fn new(base: u32, tcm_base: u32) -> (r: Self)
        requires
            base != tcm_base,
        ensures
            r.wf(),
            r.vmem.spec_base() == base,
            r.vmem_tcm.spec_base() == tcm_base,
            forall|p: int| 0 <= p < MMU_PAGE_COUNT ==> #[trigger] r.plain_entry(p) == no_entry(),
            forall|p: int| 0 <= p < MMU_PAGE_COUNT ==> #[trigger] r.tcm_page_entry(p) == no_entry(),
            r.current_itcm_size == 0,
            r.current_dtcm_addr == 0,
            r.current_dtcm_size == 0,
    {
        MmuArm9 {
            vmem: VirtualMem::new(base),
            vmem_tcm: VirtualMem::new(tcm_base),
            mmu_read: vec![0; MMU_PAGE_COUNT],
            mmu_write: vec![0; MMU_PAGE_COUNT],
            mmu_read_tcm: vec![0; MMU_PAGE_COUNT],
            mmu_write_tcm: vec![0; MMU_PAGE_COUNT],
            current_itcm_size: 0,
            current_dtcm_addr: 0,
            current_dtcm_size: 0,
        }
    }
}

/// Page tables and memory window of the second CPU.
pub struct MmuArm7 {
    pub vmem: VirtualMem,
    pub mmu_read: Vec<usize>,
    pub mmu_write: Vec<usize>,
}

impl MmuArm7 {
    pub open spec fn wf(&self) -> bool {
        &&& self.vmem.wf()
        &&& tables_agree(self.mmu_read@, self.mmu_write@, self.vmem@)
    }

    pub open spec fn plain_entry(&self, p: int) -> PageEntry {
        entry_at(self.mmu_read@, self.mmu_write@, self.vmem@, p)
    }

    /// Empty tables and window; the window sits at host address `base`.
    pub fn new(base: u32) -> (r: Self)
        ensures
            r.wf(),
            r.vmem.spec_base() == base,
            forall|p: int| 0 <= p < MMU_PAGE_COUNT ==> #[trigger] r.plain_entry(p) == no_entry(),
    {
        MmuArm7 { vmem: VirtualMem::new(base), mmu_read: vec![0; MMU_PAGE_COUNT], mmu_write: vec![0; MMU_PAGE_COUNT] }
    }
}

/// Rebuilds one page of the first CPU's TCM-aware tables and window.
#[verifier::rlimit(40)]
fn update_tcm_page_arm9(mmu: &mut MmuArm9, cp15: &Cp15, wram: &Wram, jit: &JitMemoryMap, addr: u32)
    requires
        old(mmu).wf(),
        cp15.wf(),
        is_page_aligned(addr as int),
        addr < V_MEM_ARM9_RANGE,
    ensures
        final(mmu).wf(),
        final(mmu).mmu_read_tcm@ == old(mmu).mmu_read_tcm@.update(addr as int / MMU_PAGE_SIZE as int, tcm_entry(*cp15, *wram, *jit, addr).read),
        final(mmu).mmu_write_tcm@ == old(mmu).mmu_write_tcm@.update(addr as int / MMU_PAGE_SIZE as int, tcm_entry(*cp15, *wram, *jit, addr).write),
        final(mmu).vmem_tcm@ == old(mmu).vmem_tcm@.update(addr as int / MMU_PAGE_SIZE as int, tcm_entry(*cp15, *wram, *jit, addr).map),
        final(mmu).vmem_tcm.spec_base() == old(mmu).vmem_tcm.spec_base(),
        final(mmu).vmem == old(mmu).vmem,
        final(mmu).mmu_read == old(mmu).mmu_read,
        final(mmu).mmu_write == old(mmu).mmu_write,
        final(mmu).current_itcm_size == old(mmu).current_itcm_size,
        final(mmu).current_dtcm_addr == old(mmu).current_dtcm_addr,
        final(mmu).current_dtcm_size == old(mmu).current_dtcm_size,
{
    proof {
        lemma_aligned_offsets(addr);
        lemma_entries_agree(*cp15, *wram, *jit, addr);
    }
    let p = addr as usize / MMU_PAGE_SIZE;
    mmu.vmem_tcm.destroy_map(addr);
    let mut read: usize = 0;
    let mut write: usize = 0;
    let base_addr = addr % 0x0100_0000;
    let band = addr & REGION_BITS_MASK;
    if band == MAIN_OFFSET {
        let addr_offset = addr as usize % MAIN_SIZE;
        let w = !jit.has_jit_block(addr);
        read = MAIN_SHM_OFFSET + addr_offset;
        if w {
            write = MAIN_SHM_OFFSET + addr_offset;
        }
        mmu.vmem_tcm.create_page_map(MAIN_SHM_OFFSET, base_addr, MAIN_SIZE, addr, w);
    } else if band == SHARED_WRAM_OFFSET {
        let shm_offset = wram.get_shm_offset(CpuType::ARM9, addr);
        if shm_offset != usize::MAX {
            mmu.vmem_tcm.create_page_map(shm_offset, 0, MMU_PAGE_SIZE, addr, true);
            read = shm_offset;
            write = shm_offset;
        } else {
            mmu.vmem_tcm.create_map(0, addr, false, false);
        }
    }
    if addr < cp15.itcm_size {
        if cp15.itcm_state == TcmState::RW {
            let addr_offset = addr as usize % ITCM_SIZE;
            let w = !jit.has_jit_block(addr);
            read = ITCM_SHM_OFFSET + addr_offset;
            // A page with compiled code keeps no write entry, whatever lay beneath.
            write = if w { ITCM_SHM_OFFSET + addr_offset } else { 0 };
            mmu.vmem_tcm.create_page_map(ITCM_SHM_OFFSET, base_addr, ITCM_SIZE, addr, w);
        }
    } else if addr >= cp15.dtcm_addr && addr < cp15.dtcm_addr + cp15.dtcm_size {
        if cp15.dtcm_state == TcmState::RW {
            let addr_offset = (addr - cp15.dtcm_addr) as usize % DTCM_SIZE;
            read = DTCM_SHM_OFFSET + addr_offset;
            write = DTCM_SHM_OFFSET + addr_offset;
            mmu.vmem_tcm.destroy_map(addr);
            mmu.vmem_tcm.create_page_map(DTCM_SHM_OFFSET, addr_offset as u32, DTCM_SIZE, addr, true);
        } else if cp15.dtcm_state == TcmState::W {
            read = 0;
            write = 0;
            mmu.vmem_tcm.destroy_map(addr);
        }
    }
    mmu.mmu_read_tcm.set(p, read);
    mmu.mmu_write_tcm.set(p, write);
    proof {
        let e = tcm_entry(*cp15, *wram, *jit, addr);
        assert(read == e.read);
        assert(write == e.write);
        assert(mmu.vmem_tcm@ == old(mmu).vmem_tcm@.update(p as int, e.map));
        lemma_tables_agree_update(old(mmu).mmu_read_tcm@, old(mmu).mmu_write_tcm@, old(mmu).vmem_tcm@, p as int, e);
    }
}

/// Rebuilds one work-RAM page of the first CPU's plain tables and window.
fn update_wram_page_arm9(mmu: &mut MmuArm9, wram: &Wram, addr: u32)
    requires
        old(mmu).wf(),
        is_page_aligned(addr as int),
        addr < V_MEM_ARM9_RANGE,
    ensures
        final(mmu).wf(),
        final(mmu).mmu_read@ == old(mmu).mmu_read@.update(addr as int / MMU_PAGE_SIZE as int, wram_arm9_entry(*wram, addr).read),
        final(mmu).mmu_write@ == old(mmu).mmu_write@.update(addr as int / MMU_PAGE_SIZE as int, wram_arm9_entry(*wram, addr).write),
        final(mmu).vmem@ == old(mmu).vmem@.update(addr as int / MMU_PAGE_SIZE as int, wram_arm9_entry(*wram, addr).map),
        final(mmu).vmem.spec_base() == old(mmu).vmem.spec_base(),
        final(mmu).vmem_tcm == old(mmu).vmem_tcm,
        final(mmu).mmu_read_tcm == old(mmu).mmu_read_tcm,
        final(mmu).mmu_write_tcm == old(mmu).mmu_write_tcm,
        final(mmu).current_itcm_size == old(mmu).current_itcm_size,
        final(mmu).current_dtcm_addr == old(mmu).current_dtcm_addr,
        final(mmu).current_dtcm_size == old(mmu).current_dtcm_size,
{
    proof {
        lemma_aligned_offsets(addr);
    }
    let p = addr as usize / MMU_PAGE_SIZE;
    mmu.vmem.destroy_map(addr);
    let shm_offset = wram.get_shm_offset(CpuType::ARM9, addr);
    if shm_offset != usize::MAX {
        mmu.vmem.create_map(shm_offset, addr, true, true);
        mmu.mmu_read.set(p, shm_offset);
        mmu.mmu_write.set(p, shm_offset);
    } else {
        mmu.vmem.create_map(0, addr, false, false);
        mmu.mmu_read.set(p, 0);
        mmu.mmu_write.set(p, 0);
    }
    proof {
        let e = wram_arm9_entry(*wram, addr);
        assert(mmu.vmem@ =~= old(mmu).vmem@.update(p as int, e.map));
        assert(mmu.mmu_read@ =~= old(mmu).mmu_read@.update(p as int, e.read));
        assert(mmu.mmu_write@ =~= old(mmu).mmu_write@.update(p as int, e.write));
        lemma_tables_agree_update(old(mmu).mmu_read@, old(mmu).mmu_write@, old(mmu).vmem@, p as int, e);
    }
}

/// Rebuilds one work-RAM page of the second CPU's tables and window.
fn update_wram_page_arm7(mmu: &mut MmuArm7, wram: &Wram, jit: &JitMemoryMap, addr: u32)
    requires
        old(mmu).wf(),
        is_page_aligned(addr as int),
        addr < V_MEM_ARM9_RANGE,
    ensures
        final(mmu).wf(),
        final(mmu).mmu_read@ == old(mmu).mmu_read@.update(addr as int / MMU_PAGE_SIZE as int, wram_arm7_entry(*wram, *jit, addr).read),
        final(mmu).mmu_write@ == old(mmu).mmu_write@.update(addr as int / MMU_PAGE_SIZE as int, wram_arm7_entry(*wram, *jit, addr).write),
        final(mmu).vmem@ == old(mmu).vmem@.update(addr as int / MMU_PAGE_SIZE as int, wram_arm7_entry(*wram, *jit, addr).map),
        final(mmu).vmem.spec_base() == old(mmu).vmem.spec_base(),
{
    proof {
        lemma_aligned_offsets(addr);
    }
    let p = addr as usize / MMU_PAGE_SIZE;
    mmu.vmem.destroy_map(addr);
    let write = !jit.has_jit_block(addr);
    let shm_offset = wram.get_shm_offset(CpuType::ARM7, addr);
    mmu.mmu_read.set(p, shm_offset);
    // A page with compiled code keeps no write entry: the window maps it read-only.
    mmu.mmu_write.set(p, if write { shm_offset } else { 0 });
    mmu.vmem.create_map(shm_offset, addr, true, write);
    proof {
        let e = wram_arm7_entry(*wram, *jit, addr);
        assert(mmu.vmem@ =~= old(mmu).vmem@.update(p as int, e.map));
        assert(mmu.mmu_read@ =~= old(mmu).mmu_read@.update(p as int, e.read));
        assert(mmu.mmu_write@ =~= old(mmu).mmu_write@.update(p as int, e.write));
        lemma_tables_agree_update(old(mmu).mmu_read@, old(mmu).mmu_write@, old(mmu).vmem@, p as int, e);
    }
}

/// Pages `[lo, hi)` of an address space now hold the entries that `f` gives
/// their first address, the others are as they were.
pub open spec fn rebuilt_range(
    new_read: Seq<usize>, new_write: Seq<usize>, new_vm: Seq<Option<PageMap>>,
    old_read: Seq<usize>, old_write: Seq<usize>, old_vm: Seq<Option<PageMap>>,
    lo: int, hi: int, f: spec_fn(u32) -> PageEntry,
) -> bool {
    forall|q: int|
        0 <= q < MMU_PAGE_COUNT ==> #[trigger] entry_at(new_read, new_write, new_vm, q) == if lo <= q < hi {
            f((q * MMU_PAGE_SIZE) as u32)
        } else {
            entry_at(old_read, old_write, old_vm, q)
        }
}

pub proof fn lemma_page_addr(addr: u32)
    requires
        is_page_aligned(addr as int),
    ensures
        ((addr as int / MMU_PAGE_SIZE as int) * MMU_PAGE_SIZE) as u32 == addr,
        (addr as int + MMU_PAGE_SIZE) / MMU_PAGE_SIZE as int == addr as int / MMU_PAGE_SIZE as int + 1,
        is_page_aligned(addr as int + MMU_PAGE_SIZE),
{
    vstd::arithmetic::div_mod::lemma_fundamental_div_mod(addr as int, MMU_PAGE_SIZE as int);
}

pub proof fn lemma_page_index(q: int)
    requires
        0 <= q < MMU_PAGE_COUNT,
    ensures
        ((q * MMU_PAGE_SIZE) as u32) as int == q * MMU_PAGE_SIZE,
        0 <= q * MMU_PAGE_SIZE < V_MEM_ARM9_RANGE,
        is_page_aligned(q * MMU_PAGE_SIZE),
        (q * MMU_PAGE_SIZE) / MMU_PAGE_SIZE as int == q,
{
    assert(0 <= q * MMU_PAGE_SIZE < V_MEM_ARM9_RANGE) by (nonlinear_arith)
        requires 0 <= q < MMU_PAGE_COUNT;
    vstd::arithmetic::div_mod::lemma_fundamental_div_mod_converse(q * MMU_PAGE_SIZE, MMU_PAGE_SIZE as int, q, 0);
}

/// Maps the main-memory band of a plain window read-write, page by page.
#[verifier::rlimit(40)]
fn map_main_pages(read: &mut Vec<usize>, write: &mut Vec<usize>, vmem: &mut VirtualMem)
    requires
        tables_agree(old(read)@, old(write)@, old(vmem)@),
        old(vmem).wf(),
    ensures
        tables_agree(final(read)@, final(write)@, final(vmem)@),
        final(vmem).wf(),
        final(vmem).spec_base() == old(vmem).spec_base(),
        rebuilt_range(final(read)@, final(write)@, final(vmem)@, old(read)@, old(write)@, old(vmem)@,
            MAIN_OFFSET as int / MMU_PAGE_SIZE as int, SHARED_WRAM_OFFSET as int / MMU_PAGE_SIZE as int,
            |a: u32| main_rw_entry(a)),
{
    let ghost lo = MAIN_OFFSET as int / MMU_PAGE_SIZE as int;
    let mut addr: u32 = MAIN_OFFSET;
    while addr < SHARED_WRAM_OFFSET
        invariant
            MAIN_OFFSET <= addr <= SHARED_WRAM_OFFSET,
            lo == MAIN_OFFSET as int / MMU_PAGE_SIZE as int,
            is_page_aligned(addr as int),
            read@.len() == MMU_PAGE_COUNT,
            write@.len() == MMU_PAGE_COUNT,
            vmem.wf(),
            vmem.spec_base() == old(vmem).spec_base(),
            forall|q: int|
                0 <= q < MMU_PAGE_COUNT ==> #[trigger] entry_at(read@, write@, vmem@, q) == if lo <= q < addr as int / MMU_PAGE_SIZE as int {
                    PageEntry { read: main_rw_entry((q * MMU_PAGE_SIZE) as u32).read, write: main_rw_entry((q * MMU_PAGE_SIZE) as u32).write, map: None }
                } else {
                    entry_at(old(read)@, old(write)@, old(vmem)@, q)
                },
        decreases SHARED_WRAM_OFFSET - addr,
    {
        proof {
            lemma_page_addr(addr);
        }
        let ghost r0 = read@;
        let ghost w0 = write@;
        let ghost v0 = vmem@;
        let p = addr as usize / MMU_PAGE_SIZE;
        vmem.destroy_map(addr);
        let o = MAIN_SHM_OFFSET + addr as usize % MAIN_SIZE;
        read.set(p, o);
        write.set(p, o);
        proof {
            assert forall|q: int| 0 <= q < MMU_PAGE_COUNT && q != p implies #[trigger] entry_at(read@, write@, vmem@, q) == entry_at(r0, w0, v0, q) by {}
            assert(entry_at(read@, write@, vmem@, p as int) == PageEntry { read: main_rw_entry((p * MMU_PAGE_SIZE) as u32).read, write: main_rw_entry((p * MMU_PAGE_SIZE) as u32).write, map: None });
            assert forall|q: int| 0 <= q < MMU_PAGE_COUNT implies #[trigger] entry_at(read@, write@, vmem@, q) == if lo <= q < (addr + MMU_PAGE_SIZE) as int / MMU_PAGE_SIZE as int {
                    PageEntry { read: main_rw_entry((q * MMU_PAGE_SIZE) as u32).read, write: main_rw_entry((q * MMU_PAGE_SIZE) as u32).write, map: None }
                } else {
                    entry_at(old(read)@, old(write)@, old(vmem)@, q)
                } by {
                if q != p {
                    assert(entry_at(read@, write@, vmem@, q) == entry_at(r0, w0, v0, q));
                    if lo <= q < addr as int / MMU_PAGE_SIZE as int {
                        assert(entry_at(r0, w0, v0, q) == PageEntry { read: main_rw_entry((q * MMU_PAGE_SIZE) as u32).read, write: main_rw_entry((q * MMU_PAGE_SIZE) as u32).write, map: None });
                    } else {
                        assert(!(lo <= q < (addr + MMU_PAGE_SIZE) as int / MMU_PAGE_SIZE as int));
                        assert(entry_at(r0, w0, v0, q) == entry_at(old(read)@, old(write)@, old(vmem)@, q));
                    }
                } else {
                    vstd::arithmetic::div_mod::lemma_div_is_ordered(MAIN_OFFSET as int, addr as int, MMU_PAGE_SIZE as int);
                    assert(q == p as int);
                    assert(lo <= q);
                    assert((addr as int + MMU_PAGE_SIZE) / MMU_PAGE_SIZE as int == addr as int / MMU_PAGE_SIZE as int + 1);
                    assert(q < (addr + MMU_PAGE_SIZE) as int / MMU_PAGE_SIZE as int);
                    assert(entry_at(read@, write@, vmem@, q) == PageEntry { read: main_rw_entry((q * MMU_PAGE_SIZE) as u32).read, write: main_rw_entry((q * MMU_PAGE_SIZE) as u32).write, map: None });
                }
            }
        }
        addr = addr + MMU_PAGE_SIZE as u32;
    }
    let ghost v1 = vmem@;
    let region = main_region();
    vmem.destroy_region_map(&region);
    vmem.create_region_map(&region);
    proof {
        assert forall|q: int| 0 <= q < MMU_PAGE_COUNT implies #[trigger] entry_at(read@, write@, vmem@, q) == if lo <= q < SHARED_WRAM_OFFSET as int / MMU_PAGE_SIZE as int {
                main_rw_entry((q * MMU_PAGE_SIZE) as u32)
            } else {
                entry_at(old(read)@, old(write)@, old(vmem)@, q)
            } by {
            if lo <= q < SHARED_WRAM_OFFSET as int / MMU_PAGE_SIZE as int {
                assert(in_region_pages(region, q));
                lemma_page_index(q);
                let a = (q * MMU_PAGE_SIZE) as u32;
                assert(0x0200_0000 <= a < 0x0300_0000);
                lemma_main_offsets(a);
                assert(vmem@[q] == Some(region_page(region, q)));
                assert(region_page(region, q).offset == main_rw_entry(a).read);
                assert(entry_at(read@, write@, v1, q).read == main_rw_entry(a).read);
            }
        }
        assert forall|q: int| 0 <= q < MMU_PAGE_COUNT implies page_agrees(#[trigger] entry_at(read@, write@, vmem@, q)) by {
            if lo <= q < SHARED_WRAM_OFFSET as int / MMU_PAGE_SIZE as int {
                lemma_page_index(q);
                let a = (q * MMU_PAGE_SIZE) as u32;
                lemma_aligned_offsets(a);
            } else {
                assert(entry_at(read@, write@, v1, q) == entry_at(old(read)@, old(write)@, old(vmem)@, q));
                assert(entry_at(read@, write@, vmem@, q) == entry_at(old(read)@, old(write)@, old(vmem)@, q));
            }
        }
    }
}

impl MmuArm9 {
    /// The plain tables and window of `self` are those of `o` rebuilt over pages `[lo, hi)` by `f`.
    pub open spec fn plain_rebuilt(&self, o: &MmuArm9, lo: int, hi: int, f: spec_fn(u32) -> PageEntry) -> bool {
        &&& rebuilt_range(self.mmu_read@, self.mmu_write@, self.vmem@, o.mmu_read@, o.mmu_write@, o.vmem@, lo, hi, f)
        &&& self.vmem.spec_base() == o.vmem.spec_base()
    }

    /// The TCM-aware tables and window of `self` are those of `o` rebuilt over pages `[lo, hi)` by `f`.
    pub open spec fn tcm_rebuilt(&self, o: &MmuArm9, lo: int, hi: int, f: spec_fn(u32) -> PageEntry) -> bool {
        &&& rebuilt_range(self.mmu_read_tcm@, self.mmu_write_tcm@, self.vmem_tcm@, o.mmu_read_tcm@, o.mmu_write_tcm@, o.vmem_tcm@, lo, hi, f)
        &&& self.vmem_tcm.spec_base() == o.vmem_tcm.spec_base()
    }

    pub open spec fn plain_same(&self, o: &MmuArm9) -> bool {
        &&& self.mmu_read == o.mmu_read
        &&& self.mmu_write == o.mmu_write
        &&& self.vmem == o.vmem
    }

    pub open spec fn tcm_same(&self, o: &MmuArm9) -> bool {
        &&& self.mmu_read_tcm == o.mmu_read_tcm
        &&& self.mmu_write_tcm == o.mmu_write_tcm
        &&& self.vmem_tcm == o.vmem_tcm
        &&& self.current_itcm_size == o.current_itcm_size
        &&& self.current_dtcm_addr == o.current_dtcm_addr
        &&& self.current_dtcm_size == o.current_dtcm_size
    }
}

impl MmuArm7 {
    pub open spec fn rebuilt(&self, o: &MmuArm7, lo: int, hi: int, f: spec_fn(u32) -> PageEntry) -> bool {
        &&& rebuilt_range(self.mmu_read@, self.mmu_write@, self.vmem@, o.mmu_read@, o.mmu_write@, o.vmem@, lo, hi, f)
        &&& self.vmem.spec_base() == o.vmem.spec_base()
    }
}

/// Page `q` lies in one of the page ranges `[lo, hi)`.
pub open spec fn in_ranges(ranges: Seq<(int, int)>, q: int) -> bool {
    exists|i: int| 0 <= i < ranges.len() && (#[trigger] ranges[i]).0 <= q < ranges[i].1
}

pub open spec fn page_lo(a: u32) -> int {
    a as int / MMU_PAGE_SIZE as int
}

pub proof fn lemma_aligned_step(a: u32, b: u32)
    requires
        is_page_aligned(a as int),
        is_page_aligned(b as int),
        a < b,
    ensures
        a + MMU_PAGE_SIZE <= b,
{
    vstd::arithmetic::div_mod::lemma_fundamental_div_mod(a as int, MMU_PAGE_SIZE as int);
    vstd::arithmetic::div_mod::lemma_fundamental_div_mod(b as int, MMU_PAGE_SIZE as int);
}

/// A rebuilt range grows by the page just rebuilt.
pub proof fn lemma_rebuilt_extend(
    r2: Seq<usize>, w2: Seq<usize>, v2: Seq<Option<PageMap>>,
    r1: Seq<usize>, w1: Seq<usize>, v1: Seq<Option<PageMap>>,
    r0: Seq<usize>, w0: Seq<usize>, v0: Seq<Option<PageMap>>,
    lo: int, addr: u32, f: spec_fn(u32) -> PageEntry,
)
    requires
        rebuilt_range(r1, w1, v1, r0, w0, v0, lo, page_lo(addr), f),
        is_page_aligned(addr as int),
        lo <= page_lo(addr) < MMU_PAGE_COUNT,
        forall|q: int| 0 <= q < MMU_PAGE_COUNT && q != page_lo(addr) ==> #[trigger] entry_at(r2, w2, v2, q) == entry_at(r1, w1, v1, q),
        entry_at(r2, w2, v2, page_lo(addr)) == f(addr),
    ensures
        rebuilt_range(r2, w2, v2, r0, w0, v0, lo, page_lo(addr) + 1, f),
{
    lemma_page_addr(addr);
    assert forall|q: int| 0 <= q < MMU_PAGE_COUNT implies #[trigger] entry_at(r2, w2, v2, q) == if lo <= q < page_lo(addr) + 1 {
            f((q * MMU_PAGE_SIZE) as u32)
        } else {
            entry_at(r0, w0, v0, q)
        } by {
        if q != page_lo(addr) {
            assert(entry_at(r1, w1, v1, q) == entry_at(r2, w2, v2, q));
        }
    }
}

impl Emu {
    /// The first CPU's TCM-aware entries as the current configuration gives them.
    pub open spec fn tcm_entry_fn(&self) -> spec_fn(u32) -> PageEntry {
        |a: u32| tcm_entry(self.cp15, self.wram, self.jit_memory_map, a)
    }

    /// The first CPU's plain entries as the current configuration gives them.
    pub open spec fn arm9_entry_fn(&self) -> spec_fn(u32) -> PageEntry {
        |a: u32| arm9_entry(self.wram, a)
    }

    /// The second CPU's entries as the current configuration gives them.
    pub open spec fn arm7_entry_fn(&self) -> spec_fn(u32) -> PageEntry {
        |a: u32| arm7_entry(self.wram, self.jit_memory_map, a)
    }

    fn update_wram_no_tcm_arm9(&mut self)
        requires
            old(self).wf(),
        ensures
            final(self).wf(),
            final(self).same_config(old(self)),
            final(self).mmu_arm7 == old(self).mmu_arm7,
            final(self).mmu_arm9.tcm_same(&old(self).mmu_arm9),
            final(self).mmu_arm9.plain_rebuilt(&old(self).mmu_arm9, page_lo(SHARED_WRAM_OFFSET), page_lo(IO_PORTS_OFFSET),
                |a: u32| wram_arm9_entry(old(self).wram, a)),
    {
        let mut addr: u32 = SHARED_WRAM_OFFSET;
        while addr < IO_PORTS_OFFSET
            invariant
                SHARED_WRAM_OFFSET <= addr <= IO_PORTS_OFFSET,
                is_page_aligned(addr as int),
                self.wf(),
                self.same_config(old(self)),
                self.mmu_arm7 == old(self).mmu_arm7,
                self.mmu_arm9.tcm_same(&old(self).mmu_arm9),
                self.mmu_arm9.plain_rebuilt(&old(self).mmu_arm9, page_lo(SHARED_WRAM_OFFSET), page_lo(addr),
                    |a: u32| wram_arm9_entry(old(self).wram, a)),
            decreases IO_PORTS_OFFSET - addr,
        {
            proof {
                lemma_page_addr(addr);
                vstd::arithmetic::div_mod::lemma_div_is_ordered(SHARED_WRAM_OFFSET as int, addr as int, MMU_PAGE_SIZE as int);
            }
            let ghost m0 = self.mmu_arm9;
            update_wram_page_arm9(&mut self.mmu_arm9, &self.wram, addr);
            proof {
                let m = self.mmu_arm9;
                let o = old(self).mmu_arm9;
                lemma_rebuilt_extend(m.mmu_read@, m.mmu_write@, m.vmem@, m0.mmu_read@, m0.mmu_write@, m0.vmem@,
                    o.mmu_read@, o.mmu_write@, o.vmem@, page_lo(SHARED_WRAM_OFFSET), addr, |a: u32| wram_arm9_entry(old(self).wram, a));
            }
            addr = addr + MMU_PAGE_SIZE as u32;
        }
    }

    fn update_all_no_tcm_arm9(&mut self)
        requires
            old(self).wf(),
        ensures
            final(self).wf(),
            final(self).same_config(old(self)),
            final(self).mmu_arm7 == old(self).mmu_arm7,
            final(self).mmu_arm9.tcm_same(&old(self).mmu_arm9),
            final(self).mmu_arm9.plain_rebuilt(&old(self).mmu_arm9, page_lo(MAIN_OFFSET), page_lo(IO_PORTS_OFFSET),
                old(self).arm9_entry_fn()),
    {
        map_main_pages(&mut self.mmu_arm9.mmu_read, &mut self.mmu_arm9.mmu_write, &mut self.mmu_arm9.vmem);
        let ghost m1 = self.mmu_arm9;
        self.update_wram_no_tcm_arm9();
        proof {
            assert forall|q: int| 0 <= q < MMU_PAGE_COUNT implies #[trigger] self.mmu_arm9.plain_entry(q) == if page_lo(MAIN_OFFSET) <= q < page_lo(IO_PORTS_OFFSET) {
                    arm9_entry(old(self).wram, (q * MMU_PAGE_SIZE) as u32)
                } else {
                    old(self).mmu_arm9.plain_entry(q)
                } by {
                lemma_page_index(q);
                assert(m1.plain_entry(q) == entry_at(m1.mmu_read@, m1.mmu_write@, m1.vmem@, q));
            }
        }
    }

    /// Rebuilds the first CPU's TCM-aware tables and window over guest addresses `[start, end)`.
    fn update_tcm_arm9(&mut self, start: u32, end: u32)
        requires
            old(self).wf(),
            is_page_aligned(start as int),
            is_page_aligned(end as int),
            start <= end <= V_MEM_ARM9_RANGE,
        ensures
            final(self).wf(),
            final(self).same_config(old(self)),
            final(self).mmu_arm7 == old(self).mmu_arm7,
            final(self).mmu_arm9.plain_same(&old(self).mmu_arm9),
            final(self).mmu_arm9.tcm_rebuilt(&old(self).mmu_arm9, page_lo(start), page_lo(end), old(self).tcm_entry_fn()),
            final(self).mmu_arm9.current_itcm_size == old(self).cp15.itcm_size,
            final(self).mmu_arm9.current_dtcm_addr == old(self).cp15.dtcm_addr,
            final(self).mmu_arm9.current_dtcm_size == old(self).cp15.dtcm_size,
    {
        let mut addr: u32 = start;
        while addr < end
            invariant
                start <= addr <= end,
                end <= V_MEM_ARM9_RANGE,
                is_page_aligned(end as int),
                is_page_aligned(addr as int),
                self.wf(),
                self.same_config(old(self)),
                self.mmu_arm7 == old(self).mmu_arm7,
                self.mmu_arm9.plain_same(&old(self).mmu_arm9),
                self.mmu_arm9.current_itcm_size == old(self).mmu_arm9.current_itcm_size,
                self.mmu_arm9.current_dtcm_addr == old(self).mmu_arm9.current_dtcm_addr,
                self.mmu_arm9.current_dtcm_size == old(self).mmu_arm9.current_dtcm_size,
                self.mmu_arm9.tcm_rebuilt(&old(self).mmu_arm9, page_lo(start), page_lo(addr), old(self).tcm_entry_fn()),
            decreases end - addr,
        {
            proof {
                lemma_page_addr(addr);
                vstd::arithmetic::div_mod::lemma_div_is_ordered(start as int, addr as int, MMU_PAGE_SIZE as int);
            }
            let ghost m0 = self.mmu_arm9;
            update_tcm_page_arm9(&mut self.mmu_arm9, &self.cp15, &self.wram, &self.jit_memory_map, addr);
            proof {
                let m = self.mmu_arm9;
                let o = old(self).mmu_arm9;
                lemma_aligned_step(addr, end);
                lemma_rebuilt_extend(m.mmu_read_tcm@, m.mmu_write_tcm@, m.vmem_tcm@, m0.mmu_read_tcm@, m0.mmu_write_tcm@, m0.vmem_tcm@,
                    o.mmu_read_tcm@, o.mmu_write_tcm@, o.vmem_tcm@, page_lo(start), addr, old(self).tcm_entry_fn());
            }
            addr = addr + MMU_PAGE_SIZE as u32;
        }
        self.mmu_arm9.current_itcm_size = self.cp15.itcm_size;
        self.mmu_arm9.current_dtcm_addr = self.cp15.dtcm_addr;
        self.mmu_arm9.current_dtcm_size = self.cp15.dtcm_size;
    }
}

/// Clears the write entry of `addr`'s page and of each of its mirrors within
/// `region`, and revokes write access to those pages of the window, so that no
/// alias of the page can be written through the fast path. The table `mmu`
/// needs to cover the region's pages only. The mirrors are
/// cleared even when `addr`'s own entry is already 0: a TCM may cover that
/// page while another mirror is still writable.
#[verifier::rlimit(40)]
pub fn remove_mmu_write_entry(addr: u32, region: &MemRegion, mmu: &mut Vec<usize>, vmem: &mut VirtualMem)
    requires
        region.wf(),
        region.start <= addr < region.end,
        region.end as int / MMU_PAGE_SIZE as int <= old(mmu)@.len(),
        old(vmem).wf(),
    ensures
        final(mmu)@.len() == old(mmu)@.len(),
        forall|q: int|
            0 <= q < old(mmu)@.len() ==> #[trigger] final(mmu)@[q] == if is_alias_page(*region, page_lo(addr), q) {
                0
            } else {
                old(mmu)@[q]
            },
        final(vmem).wf(),
        final(vmem).spec_base() == old(vmem).spec_base(),
        forall|q: int|
            0 <= q < MMU_PAGE_COUNT ==> #[trigger] final(vmem)@[q] == if is_alias_page(*region, page_lo(addr), q) {
                revoked(old(vmem)@[q])
            } else {
                old(vmem)@[q]
            },
{
    let sp: usize = region.start / MMU_PAGE_SIZE;
    let ep: usize = region.end / MMU_PAGE_SIZE;
    let sz: usize = region.size / MMU_PAGE_SIZE;
    let p: usize = addr as usize / MMU_PAGE_SIZE;
    let r: usize = (p - sp) % sz;
    let mut q: usize = sp + r;
    let ghost mut k: int = 0;
    proof {
        assert forall|j: int| sp <= j < q implies !(#[trigger] is_alias_page(*region, p as int, j)) by {
            vstd::arithmetic::div_mod::lemma_fundamental_div_mod_converse(j - sp, sz as int, 0, j - sp);
        }
    }
    while q < ep
        invariant
            region.wf(),
            sp == region.start as int / MMU_PAGE_SIZE as int,
            ep == region.end as int / MMU_PAGE_SIZE as int,
            sz == region.size as int / MMU_PAGE_SIZE as int,
            sz > 0,
            p == page_lo(addr),
            sp <= p,
            r == (p - sp) % (sz as int),
            0 <= r < sz,
            k >= 0,
            q == sp + r + k * sz,
            ep <= mmu@.len(),
            mmu@.len() == old(mmu)@.len(),
            forall|j: int|
                0 <= j < mmu@.len() ==> #[trigger] mmu@[j] == if is_alias_page(*region, p as int, j) && j < q {
                    0
                } else {
                    old(mmu)@[j]
                },
        decreases ep + sz - q,
    {
        mmu.set(q, 0);
        proof {
            assert(q + sz == sp + r + (k + 1) * sz) by (nonlinear_arith)
                requires q == sp + r + k * sz;
            assert forall|j: int| q < j < q + sz implies !(#[trigger] is_alias_page(*region, p as int, j)) by {
                crate::vmem::lemma_alias_step(sp as int, sz as int, r as int, k, j);
            }
            crate::vmem::lemma_alias_step(sp as int, sz as int, r as int, k, q as int);
            k = k + 1;
        }
        q = q + sz;
    }
    vmem.revoke_region_write(addr, region);
}

/// Clearing the write entries of a page's mirrors keeps tables and window in agreement.
pub proof fn lemma_remove_write_agrees(
    read: Seq<usize>, w0: Seq<usize>, v0: Seq<Option<PageMap>>,
    w1: Seq<usize>, v1: Seq<Option<PageMap>>, region: MemRegion, addr: u32,
)
    requires
        tables_agree(read, w0, v0),
        w1.len() == MMU_PAGE_COUNT,
        v1.len() == MMU_PAGE_COUNT,
        forall|q: int| 0 <= q < MMU_PAGE_COUNT ==> #[trigger] w1[q] == if is_alias_page(region, page_lo(addr), q) { 0 } else { w0[q] },
        forall|q: int| 0 <= q < MMU_PAGE_COUNT ==> #[trigger] v1[q] == if is_alias_page(region, page_lo(addr), q) { revoked(v0[q]) } else { v0[q] },
    ensures
        tables_agree(read, w1, v1),
{
    assert forall|q: int| 0 <= q < MMU_PAGE_COUNT implies page_agrees(#[trigger] entry_at(read, w1, v1, q)) by {
        assert(page_agrees(entry_at(read, w0, v0, q)));
        assert(w1[q] == if is_alias_page(region, page_lo(addr), q) { 0 } else { w0[q] });
        assert(v1[q] == if is_alias_page(region, page_lo(addr), q) { revoked(v0[q]) } else { v0[q] });
    }
}

impl Emu {
    fn update_wram_arm7(&mut self)
        requires
            old(self).wf(),
        ensures
            final(self).wf(),
            final(self).same_config(old(self)),
            final(self).mmu_arm9 == old(self).mmu_arm9,
            final(self).mmu_arm7.rebuilt(&old(self).mmu_arm7, page_lo(SHARED_WRAM_OFFSET), page_lo(IO_PORTS_OFFSET),
                |a: u32| wram_arm7_entry(old(self).wram, old(self).jit_memory_map, a)),
    {
        let mut addr: u32 = SHARED_WRAM_OFFSET;
        while addr < IO_PORTS_OFFSET
            invariant
                SHARED_WRAM_OFFSET <= addr <= IO_PORTS_OFFSET,
                is_page_aligned(addr as int),
                self.wf(),
                self.same_config(old(self)),
                self.mmu_arm9 == old(self).mmu_arm9,
                self.mmu_arm7.rebuilt(&old(self).mmu_arm7, page_lo(SHARED_WRAM_OFFSET), page_lo(addr),
                    |a: u32| wram_arm7_entry(old(self).wram, old(self).jit_memory_map, a)),
            decreases IO_PORTS_OFFSET - addr,
        {
            proof {
                lemma_page_addr(addr);
                vstd::arithmetic::div_mod::lemma_div_is_ordered(SHARED_WRAM_OFFSET as int, addr as int, MMU_PAGE_SIZE as int);
            }
            let ghost m0 = self.mmu_arm7;
            update_wram_page_arm7(&mut self.mmu_arm7, &self.wram, &self.jit_memory_map, addr);
            proof {
                let m = self.mmu_arm7;
                let o = old(self).mmu_arm7;
                lemma_rebuilt_extend(m.mmu_read@, m.mmu_write@, m.vmem@, m0.mmu_read@, m0.mmu_write@, m0.vmem@,
                    o.mmu_read@, o.mmu_write@, o.vmem@, page_lo(SHARED_WRAM_OFFSET), addr,
                    |a: u32| wram_arm7_entry(old(self).wram, old(self).jit_memory_map, a));
            }
            addr = addr + MMU_PAGE_SIZE as u32;
        }
    }

    fn update_all_arm7(&mut self)
        requires
            old(self).wf(),
        ensures
            final(self).wf(),
            final(self).same_config(old(self)),
            final(self).mmu_arm9 == old(self).mmu_arm9,
            final(self).mmu_arm7.rebuilt(&old(self).mmu_arm7, page_lo(MAIN_OFFSET), page_lo(IO_PORTS_OFFSET),
                old(self).arm7_entry_fn()),
    {
        map_main_pages(&mut self.mmu_arm7.mmu_read, &mut self.mmu_arm7.mmu_write, &mut self.mmu_arm7.vmem);
        let ghost m1 = self.mmu_arm7;
        self.update_wram_arm7();
        proof {
            assert forall|q: int| 0 <= q < MMU_PAGE_COUNT implies #[trigger] self.mmu_arm7.plain_entry(q) == if page_lo(MAIN_OFFSET) <= q < page_lo(IO_PORTS_OFFSET) {
                    arm7_entry(old(self).wram, old(self).jit_memory_map, (q * MMU_PAGE_SIZE) as u32)
                } else {
                    old(self).mmu_arm7.plain_entry(q)
                } by {
                lemma_page_index(q);
                assert(m1.plain_entry(q) == entry_at(m1.mmu_read@, m1.mmu_write@, m1.vmem@, q));
            }
        }
    }
}

impl Emu {
    /// `self` is `o` with the whole address space of `cpu` rebuilt from the
    /// current configuration, the other CPU's state untouched.
    pub open spec fn all_rebuilt(&self, o: &Emu, cpu: CpuType) -> bool {
        &&& self.same_config(o)
        &&& match cpu {
            CpuType::ARM9 => {
                &&& self.mmu_arm7 == o.mmu_arm7
                &&& self.mmu_arm9.plain_rebuilt(&o.mmu_arm9, page_lo(MAIN_OFFSET), page_lo(IO_PORTS_OFFSET), o.arm9_entry_fn())
                &&& self.mmu_arm9.tcm_rebuilt(&o.mmu_arm9, 0, MMU_PAGE_COUNT as int, o.tcm_entry_fn())
                &&& self.mmu_arm9.current_itcm_size == o.cp15.itcm_size
                &&& self.mmu_arm9.current_dtcm_addr == o.cp15.dtcm_addr
                &&& self.mmu_arm9.current_dtcm_size == o.cp15.dtcm_size
            },
            CpuType::ARM7 => {
                &&& self.mmu_arm9 == o.mmu_arm9
                &&& self.mmu_arm7.rebuilt(&o.mmu_arm7, page_lo(MAIN_OFFSET), page_lo(IO_PORTS_OFFSET), o.arm7_entry_fn())
            },
        }
    }

    /// Regenerates the page tables and windows of `cpu` from the current configuration.
    pub fn mmu_update_all(&mut self, cpu: CpuType)
        requires
            old(self).wf(),
        ensures
            final(self).wf(),
            final(self).all_rebuilt(old(self), cpu),
    {
        match cpu {
            CpuType::ARM9 => {
                self.update_all_no_tcm_arm9();
                self.update_tcm_arm9(0, V_MEM_ARM9_RANGE);
                proof {
                    lemma_page_addr(V_MEM_ARM9_RANGE);
                }
            },
            CpuType::ARM7 => self.update_all_arm7(),
        }
    }

    /// `self` is `o` with the TCM-aware pages of the first CPU over `[lo, hi)`
    /// rebuilt from the current configuration, and the new TCM placement recorded.
    pub open spec fn tcm_pages_rebuilt(&self, o: &Emu, ranges: Seq<(int, int)>) -> bool {
        &&& self.same_config(o)
        &&& self.mmu_arm7 == o.mmu_arm7
        &&& self.mmu_arm9.plain_same(&o.mmu_arm9)
        &&& self.mmu_arm9.current_itcm_size == o.cp15.itcm_size
        &&& self.mmu_arm9.current_dtcm_addr == o.cp15.dtcm_addr
        &&& self.mmu_arm9.current_dtcm_size == o.cp15.dtcm_size
        &&& self.mmu_arm9.vmem_tcm.spec_base() == o.mmu_arm9.vmem_tcm.spec_base()
        &&& forall|q: int|
            0 <= q < MMU_PAGE_COUNT ==> #[trigger] self.mmu_arm9.tcm_page_entry(q) == if in_ranges(ranges, q) {
                tcm_entry(o.cp15, o.wram, o.jit_memory_map, (q * MMU_PAGE_SIZE) as u32)
            } else {
                o.mmu_arm9.tcm_page_entry(q)
            }
    }

    /// Rebuilds the instruction-TCM pages: the span below the larger of the
    /// previously applied and the configured ITCM size.
    pub fn mmu_update_itcm(&mut self)
        requires
            old(self).wf(),
        ensures
            final(self).wf(),
            final(self).tcm_pages_rebuilt(old(self), seq![(0int, page_lo(
                if old(self).mmu_arm9.current_itcm_size >= old(self).cp15.itcm_size {
                    old(self).mmu_arm9.current_itcm_size
                } else {
                    old(self).cp15.itcm_size
                },
            ))]),
    {
        let cur = self.mmu_arm9.current_itcm_size;
        let end = if cur >= self.cp15.itcm_size { cur } else { self.cp15.itcm_size };
        self.update_tcm_arm9(ITCM_OFFSET, end);
        proof {
            let ranges = seq![(0int, page_lo(end))];
            assert forall|q: int| 0 <= q < MMU_PAGE_COUNT implies #[trigger] self.mmu_arm9.tcm_page_entry(q) == if in_ranges(ranges, q) {
                tcm_entry(old(self).cp15, old(self).wram, old(self).jit_memory_map, (q * MMU_PAGE_SIZE) as u32)
            } else {
                old(self).mmu_arm9.tcm_page_entry(q)
            } by {
                if 0 <= q < page_lo(end) {
                    assert(ranges[0].0 <= q < ranges[0].1);
                }
            }
        }
    }

    /// Rebuilds the data-TCM pages: the previously applied window, then the configured one.
    #[verifier::rlimit(40)]
    pub fn mmu_update_dtcm(&mut self)
        requires
            old(self).wf(),
        ensures
            final(self).wf(),
            final(self).tcm_pages_rebuilt(old(self), seq![
                (page_lo(old(self).mmu_arm9.current_dtcm_addr), page_lo((old(self).mmu_arm9.current_dtcm_addr + old(self).mmu_arm9.current_dtcm_size) as u32)),
                (page_lo(old(self).cp15.dtcm_addr), page_lo((old(self).cp15.dtcm_addr + old(self).cp15.dtcm_size) as u32)),
            ]),
    {
        let cur_addr = self.mmu_arm9.current_dtcm_addr;
        let cur_end = cur_addr + self.mmu_arm9.current_dtcm_size;
        proof {
            assert(is_page_aligned(cur_end as int)) by {
                vstd::arithmetic::div_mod::lemma_fundamental_div_mod(cur_addr as int, MMU_PAGE_SIZE as int);
                vstd::arithmetic::div_mod::lemma_fundamental_div_mod(self.mmu_arm9.current_dtcm_size as int, MMU_PAGE_SIZE as int);
                vstd::arithmetic::div_mod::lemma_fundamental_div_mod_converse(cur_end as int, MMU_PAGE_SIZE as int,
                    cur_addr as int / MMU_PAGE_SIZE as int + self.mmu_arm9.current_dtcm_size as int / MMU_PAGE_SIZE as int, 0);
            }
        }
        self.update_tcm_arm9(cur_addr, cur_end);
        let ghost mid = *self;
        let new_addr = self.cp15.dtcm_addr;
        let new_end = new_addr + self.cp15.dtcm_size;
        proof {
            assert(is_page_aligned(new_end as int)) by {
                vstd::arithmetic::div_mod::lemma_fundamental_div_mod(new_addr as int, MMU_PAGE_SIZE as int);
                vstd::arithmetic::div_mod::lemma_fundamental_div_mod(self.cp15.dtcm_size as int, MMU_PAGE_SIZE as int);
                vstd::arithmetic::div_mod::lemma_fundamental_div_mod_converse(new_end as int, MMU_PAGE_SIZE as int,
                    new_addr as int / MMU_PAGE_SIZE as int + self.cp15.dtcm_size as int / MMU_PAGE_SIZE as int, 0);
            }
            vstd::arithmetic::div_mod::lemma_div_is_ordered(cur_addr as int, cur_end as int, MMU_PAGE_SIZE as int);
            vstd::arithmetic::div_mod::lemma_div_is_ordered(new_addr as int, new_end as int, MMU_PAGE_SIZE as int);
        }
        self.update_tcm_arm9(new_addr, new_end);
        proof {
            let ranges = seq![(page_lo(cur_addr), page_lo(cur_end)), (page_lo(new_addr), page_lo(new_end))];
            assert forall|q: int| 0 <= q < MMU_PAGE_COUNT implies #[trigger] self.mmu_arm9.tcm_page_entry(q) == if in_ranges(ranges, q) {
                tcm_entry(old(self).cp15, old(self).wram, old(self).jit_memory_map, (q * MMU_PAGE_SIZE) as u32)
            } else {
                old(self).mmu_arm9.tcm_page_entry(q)
            } by {
                assert(mid.mmu_arm9.tcm_page_entry(q) == entry_at(mid.mmu_arm9.mmu_read_tcm@, mid.mmu_arm9.mmu_write_tcm@, mid.mmu_arm9.vmem_tcm@, q));
                if ranges[0].0 <= q < ranges[0].1 {
                    assert(ranges[0].0 <= q < ranges[0].1);
                }
                if ranges[1].0 <= q < ranges[1].1 {
                    assert(ranges[1].0 <= q < ranges[1].1);
                }
            }
        }
    }

    /// Rebuilds the work-RAM band of `cpu` after a change of its banking; for the
    /// first CPU both its plain and its TCM-aware window.
    pub fn mmu_update_wram(&mut self, cpu: CpuType)
        requires
            old(self).wf(),
        ensures
            final(self).wf(),
            final(self).same_config(old(self)),
            match cpu {
                CpuType::ARM9 => {
                    &&& final(self).mmu_arm7 == old(self).mmu_arm7
                    &&& final(self).mmu_arm9.plain_rebuilt(&old(self).mmu_arm9, page_lo(SHARED_WRAM_OFFSET), page_lo(IO_PORTS_OFFSET), old(self).arm9_entry_fn())
                    &&& final(self).mmu_arm9.tcm_rebuilt(&old(self).mmu_arm9, page_lo(SHARED_WRAM_OFFSET), page_lo(IO_PORTS_OFFSET), old(self).tcm_entry_fn())
                },
                CpuType::ARM7 => {
                    &&& final(self).mmu_arm9 == old(self).mmu_arm9
                    &&& final(self).mmu_arm7.rebuilt(&old(self).mmu_arm7, page_lo(SHARED_WRAM_OFFSET), page_lo(IO_PORTS_OFFSET), old(self).arm7_entry_fn())
                },
            },
    {
        match cpu {
            CpuType::ARM9 => {
                self.update_wram_no_tcm_arm9();
                let ghost m1 = self.mmu_arm9;
                self.update_tcm_arm9(SHARED_WRAM_OFFSET, IO_PORTS_OFFSET);
                proof {
                    assert forall|q: int| 0 <= q < MMU_PAGE_COUNT implies #[trigger] self.mmu_arm9.plain_entry(q) == if page_lo(SHARED_WRAM_OFFSET) <= q < page_lo(IO_PORTS_OFFSET) {
                            arm9_entry(old(self).wram, (q * MMU_PAGE_SIZE) as u32)
                        } else {
                            old(self).mmu_arm9.plain_entry(q)
                        } by {
                        lemma_page_index(q);
                        assert(m1.plain_entry(q) == entry_at(m1.mmu_read@, m1.mmu_write@, m1.vmem@, q));
                    }
                }
            },
            CpuType::ARM7 => {
                self.update_wram_arm7();
                proof {
                    assert forall|q: int| 0 <= q < MMU_PAGE_COUNT implies #[trigger] self.mmu_arm7.plain_entry(q) == if page_lo(SHARED_WRAM_OFFSET) <= q < page_lo(IO_PORTS_OFFSET) {
                            arm7_entry(old(self).wram, old(self).jit_memory_map, (q * MMU_PAGE_SIZE) as u32)
                        } else {
                            old(self).mmu_arm7.plain_entry(q)
                        } by {
                        lemma_page_index(q);
                    }
                }
            },
        }
    }
}

impl Emu {
    /// The plain window of `cpu`.
    pub open spec fn spec_window(&self, cpu: CpuType) -> VirtualMem {
        match cpu {
            CpuType::ARM9 => self.mmu_arm9.vmem,
            CpuType::ARM7 => self.mmu_arm7.vmem,
        }
    }

    /// The window the code emitter uses for `cpu`: the TCM-aware one for the first CPU.
    pub open spec fn spec_tcm_window(&self, cpu: CpuType) -> VirtualMem {
        match cpu {
            CpuType::ARM9 => self.mmu_arm9.vmem_tcm,
            CpuType::ARM7 => self.mmu_arm7.vmem,
        }
    }

    pub open spec fn spec_read_table(&self, cpu: CpuType) -> Seq<usize> {
        match cpu {
            CpuType::ARM9 => self.mmu_arm9.mmu_read@,
            CpuType::ARM7 => self.mmu_arm7.mmu_read@,
        }
    }

    pub open spec fn spec_write_table(&self, cpu: CpuType) -> Seq<usize> {
        match cpu {
            CpuType::ARM9 => self.mmu_arm9.mmu_write@,
            CpuType::ARM7 => self.mmu_arm7.mmu_write@,
        }
    }

    pub open spec fn spec_read_tcm_table(&self, cpu: CpuType) -> Seq<usize> {
        match cpu {
            CpuType::ARM9 => self.mmu_arm9.mmu_read_tcm@,
            CpuType::ARM7 => self.mmu_arm7.mmu_read@,
        }
    }

    pub open spec fn spec_write_tcm_table(&self, cpu: CpuType) -> Seq<usize> {
        match cpu {
            CpuType::ARM9 => self.mmu_arm9.mmu_write_tcm@,
            CpuType::ARM7 => self.mmu_arm7.mmu_write@,
        }
    }

    /// Host address of guest address 0 in the plain window of `cpu`.
    pub fn mmu_get_base_ptr(&self, cpu: CpuType) -> (r: u32)
        ensures
            r == self.spec_window(cpu).spec_base(),
    {
        match cpu {
            CpuType::ARM9 => self.mmu_arm9.vmem.as_mut_ptr(),
            CpuType::ARM7 => self.mmu_arm7.vmem.as_mut_ptr(),
        }
    }

    /// Host address of guest address 0 in the window the code emitter uses for `cpu`.
    pub fn mmu_get_base_tcm_ptr(&self, cpu: CpuType) -> (r: u32)
        ensures
            r == self.spec_tcm_window(cpu).spec_base(),
    {
        match cpu {
            CpuType::ARM9 => self.mmu_arm9.vmem_tcm.as_mut_ptr(),
            CpuType::ARM7 => self.mmu_arm7.vmem.as_mut_ptr(),
        }
    }

    pub fn mmu_get_read(&self, cpu: CpuType) -> (r: &[usize])
        ensures
            r@ == self.spec_read_table(cpu),
    {
        match cpu {
            CpuType::ARM9 => self.mmu_arm9.mmu_read.as_slice(),
            CpuType::ARM7 => self.mmu_arm7.mmu_read.as_slice(),
        }
    }

    /// The first CPU's TCM-aware read table.
    pub fn mmu_get_read_tcm(&self) -> (r: &[usize])
        ensures
            r@ == self.mmu_arm9.mmu_read_tcm@,
    {
        self.mmu_arm9.mmu_read_tcm.as_slice()
    }

    pub fn mmu_get_write(&self, cpu: CpuType) -> (r: &[usize])
        ensures
            r@ == self.spec_write_table(cpu),
    {
        match cpu {
            CpuType::ARM9 => self.mmu_arm9.mmu_write.as_slice(),
            CpuType::ARM7 => self.mmu_arm7.mmu_write.as_slice(),
        }
    }

    pub fn mmu_get_write_tcm(&self, cpu: CpuType) -> (r: &[usize])
        ensures
            r@ == self.spec_write_tcm_table(cpu),
    {
        match cpu {
            CpuType::ARM9 => self.mmu_arm9.mmu_write_tcm.as_slice(),
            CpuType::ARM7 => self.mmu_arm7.mmu_write.as_slice(),
        }
    }

    /// `self` is `o` with the write entries of `addr`'s page and of all its
    /// mirrors within `region` cleared, in every table of `cpu`, and write
    /// access to those pages revoked in its windows.
    pub open spec fn write_removed(&self, o: &Emu, cpu: CpuType, addr: u32, region: MemRegion) -> bool {
        &&& self.same_config(o)
        &&& forall|q: int| 0 <= q < MMU_PAGE_COUNT ==> #[trigger] self.spec_write_table(cpu)[q] == if is_alias_page(region, page_lo(addr), q) {
                0
            } else {
                o.spec_write_table(cpu)[q]
            }
        &&& forall|q: int| 0 <= q < MMU_PAGE_COUNT ==> #[trigger] self.spec_write_tcm_table(cpu)[q] == if is_alias_page(region, page_lo(addr), q) {
                0
            } else {
                o.spec_write_tcm_table(cpu)[q]
            }
        &&& forall|q: int| 0 <= q < MMU_PAGE_COUNT ==> #[trigger] self.spec_window(cpu)@[q] == if is_alias_page(region, page_lo(addr), q) {
                revoked(o.spec_window(cpu)@[q])
            } else {
                o.spec_window(cpu)@[q]
            }
        &&& forall|q: int| 0 <= q < MMU_PAGE_COUNT ==> #[trigger] self.spec_tcm_window(cpu)@[q] == if is_alias_page(region, page_lo(addr), q) {
                revoked(o.spec_tcm_window(cpu)@[q])
            } else {
                o.spec_tcm_window(cpu)@[q]
            }
        &&& self.spec_read_table(cpu) == o.spec_read_table(cpu)
        &&& self.spec_read_tcm_table(cpu) == o.spec_read_tcm_table(cpu)
        &&& self.spec_window(cpu).spec_base() == o.spec_window(cpu).spec_base()
        &&& self.spec_tcm_window(cpu).spec_base() == o.spec_tcm_window(cpu).spec_base()
        &&& match cpu {
            CpuType::ARM9 => self.mmu_arm7 == o.mmu_arm7,
            CpuType::ARM7 => self.mmu_arm9 == o.mmu_arm9,
        }
    }

    /// Write-protects guest address `addr`, which now backs compiled code,
    /// together with every mirror of its page within `region`.
    pub fn mmu_remove_write(&mut self, cpu: CpuType, addr: u32, region: &MemRegion)
        requires
            old(self).wf(),
            region.wf(),
            region.start <= addr < region.end,
        ensures
            final(self).wf(),
            final(self).write_removed(old(self), cpu, addr, *region),
    {
        match cpu {
            CpuType::ARM9 => {
                remove_mmu_write_entry(addr, region, &mut self.mmu_arm9.mmu_write, &mut self.mmu_arm9.vmem);
                remove_mmu_write_entry(addr, region, &mut self.mmu_arm9.mmu_write_tcm, &mut self.mmu_arm9.vmem_tcm);
                proof {
                    lemma_remove_write_agrees(self.mmu_arm9.mmu_read@, old(self).mmu_arm9.mmu_write@, old(self).mmu_arm9.vmem@,
                        self.mmu_arm9.mmu_write@, self.mmu_arm9.vmem@, *region, addr);
                    lemma_remove_write_agrees(self.mmu_arm9.mmu_read_tcm@, old(self).mmu_arm9.mmu_write_tcm@, old(self).mmu_arm9.vmem_tcm@,
                        self.mmu_arm9.mmu_write_tcm@, self.mmu_arm9.vmem_tcm@, *region, addr);
                }
            },
            CpuType::ARM7 => {
                remove_mmu_write_entry(addr, region, &mut self.mmu_arm7.mmu_write, &mut self.mmu_arm7.vmem);
                proof {
                    lemma_remove_write_agrees(self.mmu_arm7.mmu_read@, old(self).mmu_arm7.mmu_write@, old(self).mmu_arm7.vmem@,
                        self.mmu_arm7.mmu_write@, self.mmu_arm7.vmem@, *region, addr);
                }
            },
        }
    }
}

/// A fast-path access is a ground-truth access: wherever a page has a non-zero
/// read entry, reading any guest address of that page through the window
/// yields the arena byte at that entry's offset plus the address's offset in
/// the page. This holds of the plain and of the TCM-aware window of each CPU.
pub proof fn lemma_fast_path_reads_arena(emu: Emu, cpu: CpuType, addr: u32)
    requires
        emu.wf(),
        addr < V_MEM_ARM9_RANGE,
    ensures
        emu.spec_read_table(cpu)[page_lo(addr)] != 0 ==> emu.spec_window(cpu).spec_read_u8(emu.shm@, addr as int)
            == Some(emu.shm@[emu.spec_read_table(cpu)[page_lo(addr)] + addr as int % MMU_PAGE_SIZE as int]),
        emu.spec_read_tcm_table(cpu)[page_lo(addr)] != 0 ==> emu.spec_tcm_window(cpu).spec_read_u8(emu.shm@, addr as int)
            == Some(emu.shm@[emu.spec_read_tcm_table(cpu)[page_lo(addr)] + addr as int % MMU_PAGE_SIZE as int]),
{
    let p = page_lo(addr);
    match cpu {
        CpuType::ARM9 => {
            assert(page_agrees(entry_at(emu.mmu_arm9.mmu_read@, emu.mmu_arm9.mmu_write@, emu.mmu_arm9.vmem@, p)));
            assert(page_agrees(entry_at(emu.mmu_arm9.mmu_read_tcm@, emu.mmu_arm9.mmu_write_tcm@, emu.mmu_arm9.vmem_tcm@, p)));
        },
        CpuType::ARM7 => {
            assert(page_agrees(entry_at(emu.mmu_arm7.mmu_read@, emu.mmu_arm7.mmu_write@, emu.mmu_arm7.vmem@, p)));
        },
    }
}

/// Write protection covers every mirror: once guest address `addr` of `region`
/// is write-protected, the write entry of each address that lies a whole
/// number of mirror periods away from it within the region is 0, in every
/// table of that CPU.
#[verifier::rlimit(40)]
pub proof fn lemma_remove_write_clears_mirrors(e0: Emu, e1: Emu, cpu: CpuType, addr: u32, region: MemRegion, k: nat)
    requires
        region.wf(),
        region.start <= addr < region.end,
        e1.write_removed(&e0, cpu, addr, region),
        region.start + (addr - region.start) % (region.size as int) + k * region.size < region.end,
    ensures
        ({
            let a = region.start + (addr - region.start) % (region.size as int) + k * region.size;
            &&& e1.spec_write_table(cpu)[a / MMU_PAGE_SIZE as int] == 0
            &&& e1.spec_write_tcm_table(cpu)[a / MMU_PAGE_SIZE as int] == 0
        }),
{
    let ps = MMU_PAGE_SIZE as int;
    let size = region.size as int;
    let start = region.start as int;
    let b = (addr - start) % size;
    let a = start + b + k * size;
    let sp = start / ps;
    let sz = size / ps;
    vstd::arithmetic::div_mod::lemma_fundamental_div_mod(start, ps);
    vstd::arithmetic::div_mod::lemma_fundamental_div_mod(size, ps);
    assert(start == sp * ps);
    assert(size == sz * ps);
    assert(0 <= b < size) by {
        vstd::arithmetic::div_mod::lemma_mod_bound(addr - start, size);
    }
    let m = (addr - start) / size;
    vstd::arithmetic::div_mod::lemma_fundamental_div_mod(addr - start, size);
    assert(m >= 0) by {
        vstd::arithmetic::div_mod::lemma_div_pos_is_pos(addr - start, size);
    }
    let bq = b / ps;
    let br = b % ps;
    vstd::arithmetic::div_mod::lemma_fundamental_div_mod(b, ps);
    assert(0 <= br < ps) by {
        vstd::arithmetic::div_mod::lemma_mod_bound(b, ps);
    }
    assert(0 <= bq < sz) by (nonlinear_arith)
        requires b == ps * bq + br, 0 <= br < ps, 0 <= b < size, size == sz * ps, ps > 0;
    // page of a
    assert(a == (sp + bq + k * sz) * ps + br) by (nonlinear_arith)
        requires a == start + b + k * size, start == sp * ps, size == sz * ps, b == ps * bq + br;
    vstd::arithmetic::div_mod::lemma_fundamental_div_mod_converse(a, ps, sp + bq + k * sz, br);
    // page of addr
    let ar = (addr as int - start) % ps;
    assert(addr as int == (sp + bq + m * sz) * ps + br) by (nonlinear_arith)
        requires addr as int - start == size * m + b, start == sp * ps, size == sz * ps, b == ps * bq + br;
    vstd::arithmetic::div_mod::lemma_fundamental_div_mod_converse(addr as int, ps, sp + bq + m * sz, br);
    // both pages sit at the same place in the period
    assert((a / ps - sp) == k * sz + bq);
    assert((page_lo(addr) - sp) == m * sz + bq);
    vstd::arithmetic::div_mod::lemma_fundamental_div_mod_converse(a / ps - sp, sz, k as int, bq);
    vstd::arithmetic::div_mod::lemma_fundamental_div_mod_converse(page_lo(addr) - sp, sz, m, bq);
    assert(sp <= a / ps) by (nonlinear_arith)
        requires a / ps - sp == k * sz + bq, k >= 0, sz > 0, bq >= 0;
    assert(a / ps < region.end as int / ps) by {
        vstd::arithmetic::div_mod::lemma_fundamental_div_mod(region.end as int, ps);
        assert(a / ps * ps <= a) by (nonlinear_arith)
            requires a == (a / ps) * ps + br, br >= 0;
        assert(a / ps * ps < region.end as int);
        assert((region.end as int / ps) * ps == region.end as int);
        assert(a / ps < region.end as int / ps) by (nonlinear_arith)
            requires a / ps * ps < (region.end as int / ps) * ps, ps > 0;
    }
    assert(is_alias_page(region, page_lo(addr), a / ps));
    assert(a / ps < MMU_PAGE_COUNT) by {
        vstd::arithmetic::div_mod::lemma_div_is_ordered(region.end as int, V_MEM_ARM9_RANGE as int, ps);
    }
    let q = a / ps;
    assert(e1.spec_write_table(cpu)[q] == 0);
    assert(e1.spec_write_tcm_table(cpu)[q] == 0);
}

pub proof fn lemma_entries_ext(
    r1: Seq<usize>, w1: Seq<usize>, v1: Seq<Option<PageMap>>,
    r2: Seq<usize>, w2: Seq<usize>, v2: Seq<Option<PageMap>>,
)
    requires
        r1.len() == MMU_PAGE_COUNT && w1.len() == MMU_PAGE_COUNT && v1.len() == MMU_PAGE_COUNT,
        r2.len() == MMU_PAGE_COUNT && w2.len() == MMU_PAGE_COUNT && v2.len() == MMU_PAGE_COUNT,
        forall|q: int| 0 <= q < MMU_PAGE_COUNT ==> #[trigger] entry_at(r1, w1, v1, q) == entry_at(r2, w2, v2, q),
    ensures
        r1 == r2,
        w1 == w2,
        v1 == v2,
{
    assert(r1 =~= r2) by {
        assert forall|q: int| 0 <= q < MMU_PAGE_COUNT implies r1[q] == r2[q] by {
            assert(entry_at(r1, w1, v1, q) == entry_at(r2, w2, v2, q));
        }
    }
    assert(w1 =~= w2) by {
        assert forall|q: int| 0 <= q < MMU_PAGE_COUNT implies w1[q] == w2[q] by {
            assert(entry_at(r1, w1, v1, q) == entry_at(r2, w2, v2, q));
        }
    }
    assert(v1 =~= v2) by {
        assert forall|q: int| 0 <= q < MMU_PAGE_COUNT implies v1[q] == v2[q] by {
            assert(entry_at(r1, w1, v1, q) == entry_at(r2, w2, v2, q));
        }
    }
}

/// Rebuilding the same pages twice with the same entries gives what the first rebuild gave.
pub proof fn lemma_rebuilt_twice(
    r0: Seq<usize>, w0: Seq<usize>, v0: Seq<Option<PageMap>>,
    r1: Seq<usize>, w1: Seq<usize>, v1: Seq<Option<PageMap>>,
    r2: Seq<usize>, w2: Seq<usize>, v2: Seq<Option<PageMap>>,
    lo: int, hi: int, f: spec_fn(u32) -> PageEntry, g: spec_fn(u32) -> PageEntry,
)
    requires
        r1.len() == MMU_PAGE_COUNT && w1.len() == MMU_PAGE_COUNT && v1.len() == MMU_PAGE_COUNT,
        r2.len() == MMU_PAGE_COUNT && w2.len() == MMU_PAGE_COUNT && v2.len() == MMU_PAGE_COUNT,
        rebuilt_range(r1, w1, v1, r0, w0, v0, lo, hi, f),
        rebuilt_range(r2, w2, v2, r1, w1, v1, lo, hi, g),
        forall|a: u32| #[trigger] f(a) == g(a),
    ensures
        r2 == r1,
        w2 == w1,
        v2 == v1,
{
    assert forall|q: int| 0 <= q < MMU_PAGE_COUNT implies #[trigger] entry_at(r2, w2, v2, q) == entry_at(r1, w1, v1, q) by {
        if lo <= q < hi {
            assert(f((q * MMU_PAGE_SIZE) as u32) == g((q * MMU_PAGE_SIZE) as u32));
        }
    }
    lemma_entries_ext(r2, w2, v2, r1, w1, v1);
}

/// Rebuilding a CPU's whole address space is idempotent: a second rebuild
/// under the same configuration leaves every table and window page as the
/// first one left it.
pub proof fn lemma_rebuild_all_idempotent(e0: Emu, e1: Emu, e2: Emu, cpu: CpuType)
    requires
        e0.wf(),
        e1.wf(),
        e2.wf(),
        e1.all_rebuilt(&e0, cpu),
        e2.all_rebuilt(&e1, cpu),
    ensures
        e2.spec_read_table(cpu) == e1.spec_read_table(cpu),
        e2.spec_write_table(cpu) == e1.spec_write_table(cpu),
        e2.spec_read_tcm_table(cpu) == e1.spec_read_tcm_table(cpu),
        e2.spec_write_tcm_table(cpu) == e1.spec_write_tcm_table(cpu),
        e2.spec_window(cpu)@ == e1.spec_window(cpu)@,
        e2.spec_tcm_window(cpu)@ == e1.spec_tcm_window(cpu)@,
{
    match cpu {
        CpuType::ARM9 => {
            let (z, a, b) = (e0.mmu_arm9, e1.mmu_arm9, e2.mmu_arm9);
            lemma_rebuilt_twice(z.mmu_read@, z.mmu_write@, z.vmem@, a.mmu_read@, a.mmu_write@, a.vmem@,
                b.mmu_read@, b.mmu_write@, b.vmem@, page_lo(MAIN_OFFSET), page_lo(IO_PORTS_OFFSET),
                e0.arm9_entry_fn(), e1.arm9_entry_fn());
            lemma_rebuilt_twice(z.mmu_read_tcm@, z.mmu_write_tcm@, z.vmem_tcm@, a.mmu_read_tcm@, a.mmu_write_tcm@, a.vmem_tcm@,
                b.mmu_read_tcm@, b.mmu_write_tcm@, b.vmem_tcm@, 0, MMU_PAGE_COUNT as int,
                e0.tcm_entry_fn(), e1.tcm_entry_fn());
        },
        CpuType::ARM7 => {
            let (z, a, b) = (e0.mmu_arm7, e1.mmu_arm7, e2.mmu_arm7);
            lemma_rebuilt_twice(z.mmu_read@, z.mmu_write@, z.vmem@, a.mmu_read@, a.mmu_write@, a.vmem@,
                b.mmu_read@, b.mmu_write@, b.vmem@, page_lo(MAIN_OFFSET), page_lo(IO_PORTS_OFFSET),
                e0.arm7_entry_fn(), e1.arm7_entry_fn());
        },
    }
}

/// Moving the data TCM: after the rebuild, every page of the previous and of
/// the new data-TCM window resolves as the new configuration says; a page of
/// the new read-write window that the instruction TCM does not cover reads the
/// data TCM, not what lay beneath it.
#[verifier::rlimit(40)]
pub proof fn lemma_dtcm_remap(e0: Emu, e1: Emu, q: int)
    requires
        e0.wf(),
        e1.tcm_pages_rebuilt(&e0, seq![
            (page_lo(e0.mmu_arm9.current_dtcm_addr), page_lo((e0.mmu_arm9.current_dtcm_addr + e0.mmu_arm9.current_dtcm_size) as u32)),
            (page_lo(e0.cp15.dtcm_addr), page_lo((e0.cp15.dtcm_addr + e0.cp15.dtcm_size) as u32)),
        ]),
        0 <= q < MMU_PAGE_COUNT,
        page_lo(e0.mmu_arm9.current_dtcm_addr) <= q < page_lo((e0.mmu_arm9.current_dtcm_addr + e0.mmu_arm9.current_dtcm_size) as u32)
            || page_lo(e0.cp15.dtcm_addr) <= q < page_lo((e0.cp15.dtcm_addr + e0.cp15.dtcm_size) as u32),
    ensures
        e1.mmu_arm9.tcm_page_entry(q) == tcm_entry(e0.cp15, e0.wram, e0.jit_memory_map, (q * MMU_PAGE_SIZE) as u32),
        e0.cp15.dtcm_state == TcmState::RW && q * MMU_PAGE_SIZE >= e0.cp15.itcm_size
            && page_lo(e0.cp15.dtcm_addr) <= q < page_lo((e0.cp15.dtcm_addr + e0.cp15.dtcm_size) as u32)
            ==> e1.mmu_arm9.mmu_read_tcm@[q] == DTCM_SHM_OFFSET + (q * MMU_PAGE_SIZE - e0.cp15.dtcm_addr) % (DTCM_SIZE as int)
                && e1.mmu_arm9.mmu_write_tcm@[q] == e1.mmu_arm9.mmu_read_tcm@[q],
{
    let ranges = seq![
        (page_lo(e0.mmu_arm9.current_dtcm_addr), page_lo((e0.mmu_arm9.current_dtcm_addr + e0.mmu_arm9.current_dtcm_size) as u32)),
        (page_lo(e0.cp15.dtcm_addr), page_lo((e0.cp15.dtcm_addr + e0.cp15.dtcm_size) as u32)),
    ];
    if ranges[0].0 <= q < ranges[0].1 {
        assert(in_ranges(ranges, q));
    } else {
        assert(ranges[1].0 <= q < ranges[1].1);
        assert(in_ranges(ranges, q));
    }
    lemma_page_index(q);
    let a = (q * MMU_PAGE_SIZE) as u32;
    if page_lo(e0.cp15.dtcm_addr) <= q < page_lo((e0.cp15.dtcm_addr + e0.cp15.dtcm_size) as u32) {
        let d = e0.cp15.dtcm_addr as int;
        let de = (e0.cp15.dtcm_addr + e0.cp15.dtcm_size) as int;
        vstd::arithmetic::div_mod::lemma_fundamental_div_mod(d, MMU_PAGE_SIZE as int);
        vstd::arithmetic::div_mod::lemma_fundamental_div_mod(de, MMU_PAGE_SIZE as int);
        assert(d <= a as int) by (nonlinear_arith)
            requires d == (d / 0x4000) * 0x4000, d / 0x4000 <= q, a as int == q * 0x4000;
        assert((a as int) < de) by (nonlinear_arith)
            requires de == (de / 0x4000) * 0x4000, q < de / 0x4000, a as int == q * 0x4000;
    }
}

/// Once guest address `addr` of `region` is write-protected, a store through
/// either window of that CPU to any address of a mirror page of it faults,
/// so it reaches the slow path, which sees the code it overwrites.
pub proof fn lemma_protected_mirror_faults(e0: Emu, e1: Emu, cpu: CpuType, addr: u32, region: MemRegion, a: u32)
    requires
        e1.write_removed(&e0, cpu, addr, region),
        a < V_MEM_ARM9_RANGE,
        is_alias_page(region, page_lo(addr), page_lo(a)),
    ensures
        e1.spec_window(cpu).spec_write_target(e1.shm@.len(), a as int) is None,
        e1.spec_tcm_window(cpu).spec_write_target(e1.shm@.len(), a as int) is None,
{
    assert(page_lo(a) < MMU_PAGE_COUNT) by {
        vstd::arithmetic::div_mod::lemma_div_is_ordered(a as int, V_MEM_ARM9_RANGE as int, MMU_PAGE_SIZE as int);
        assert((V_MEM_ARM9_RANGE as int) / (MMU_PAGE_SIZE as int) == MMU_PAGE_COUNT);
        assert(a as int / MMU_PAGE_SIZE as int <= MMU_PAGE_COUNT);
        vstd::arithmetic::div_mod::lemma_fundamental_div_mod(a as int, MMU_PAGE_SIZE as int);
    }
    let q = page_lo(a);
    assert(e1.spec_window(cpu)@[q] == revoked(e0.spec_window(cpu)@[q]));
    assert(e1.spec_tcm_window(cpu)@[q] == revoked(e0.spec_tcm_window(cpu)@[q]));
}

/// A double-word access at an 8-byte aligned guest address `a` stays within
/// one page, so where that page has a non-zero entry in the table behind the
/// emitter's window, its eight bytes read through the window are the eight
/// arena bytes at the entry's offset plus `a`'s offset in the page.
pub proof fn lemma_double_word_fast_read(emu: Emu, cpu: CpuType, a: u32, k: u32)
    requires
        emu.wf(),
        a < V_MEM_ARM9_RANGE,
        a % 8 == 0,
        k < 8,
        emu.spec_read_tcm_table(cpu)[page_lo(a)] != 0,
    ensures
        emu.spec_tcm_window(cpu).spec_read_u8(emu.shm@, (a + k) as int)
            == Some(emu.shm@[emu.spec_read_tcm_table(cpu)[page_lo(a)] + a as int % MMU_PAGE_SIZE as int + k]),
{
    let ps = MMU_PAGE_SIZE as int;
    vstd::arithmetic::div_mod::lemma_fundamental_div_mod(a as int, ps);
    vstd::arithmetic::div_mod::lemma_fundamental_div_mod(a as int, 8);
    let r = a as int % ps;
    assert(r % 8 == 0 && 0 <= r < ps) by {
        vstd::arithmetic::div_mod::lemma_mod_mod(a as int, 8, 0x800);
        vstd::arithmetic::div_mod::lemma_mod_bound(a as int, ps);
    }
    assert(r + k < ps) by {
        vstd::arithmetic::div_mod::lemma_fundamental_div_mod(r, 8);
    }
    vstd::arithmetic::div_mod::lemma_fundamental_div_mod_converse((a + k) as int, ps, a as int / ps, r + k);
    lemma_fast_path_reads_arena(emu, cpu, (a + k) as u32);
}

/// A store that the slow path makes to the arena byte behind guest address
/// `x` of CPU `cpu`'s window is what any window whose page of `x` reads that
/// arena page then reads at `x`: no copy of guest memory can go stale.
pub proof fn lemma_store_seen_through_window(emu: Emu, cpu: CpuType, reader: CpuType, x: u32, v: u8)
    requires
        emu.wf(),
        x < V_MEM_ARM9_RANGE,
        emu.spec_read_table(cpu)[page_lo(x)] != 0,
        emu.spec_read_table(reader)[page_lo(x)] == emu.spec_read_table(cpu)[page_lo(x)],
    ensures
        ({
            let i = emu.spec_read_table(cpu)[page_lo(x)] + x as int % MMU_PAGE_SIZE as int;
            emu.spec_window(reader).spec_read_u8(emu.shm@.update(i, v), x as int) == Some(v)
        }),
{
    lemma_fast_path_reads_arena(emu, reader, x);
    let p = page_lo(x);
    match reader {
        CpuType::ARM9 => {
            assert(page_agrees(entry_at(emu.mmu_arm9.mmu_read@, emu.mmu_arm9.mmu_write@, emu.mmu_arm9.vmem@, p)));
        },
        CpuType::ARM7 => {
            assert(page_agrees(entry_at(emu.mmu_arm7.mmu_read@, emu.mmu_arm7.mmu_write@, emu.mmu_arm7.vmem@, p)));
        },
    }
    vstd::arithmetic::div_mod::lemma_mod_bound(x as int, MMU_PAGE_SIZE as int);
}

} // verus!

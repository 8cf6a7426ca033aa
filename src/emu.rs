use vstd::prelude::*;
use crate::jit_memory_map::JitMemoryMap;
use crate::mmu::{no_entry, Cp15, MmuArm7, MmuArm9, TcmState};
use crate::regions::{MMU_PAGE_COUNT, SHM_SIZE};
use crate::wram::Wram;

verus! {

/// The emulated machine as far as memory layout goes: the shared backing
/// arena, the configuration that decides the layout, the compiled-code map,
/// and each CPU's page tables and windows.
pub struct Emu {
    pub shm: Vec<u8>,
    pub wram: Wram,
    pub cp15: Cp15,
    pub jit_memory_map: JitMemoryMap,
    pub mmu_arm9: MmuArm9,
    pub mmu_arm7: MmuArm7,
}

impl Emu {
    pub open spec fn wf(&self) -> bool {
        &&& self.shm@.len() == SHM_SIZE
        &&& self.cp15.wf()
        &&& self.jit_memory_map.wf()
        &&& self.mmu_arm9.wf()
        &&& self.mmu_arm7.wf()
    }

    /// The layout inputs and the arena are those of `o`.
    pub open spec fn same_config(&self, o: &Emu) -> bool {
        &&& self.shm == o.shm
        &&& self.wram == o.wram
        &&& self.cp15 == o.cp15
        &&& self.jit_memory_map == o.jit_memory_map
    }

    /// A machine with a zeroed arena, no TCM, work RAM given wholly to the
    /// first CPU and empty page tables; the three windows sit at the given
    /// host addresses.
    pub fn new(arm9_base: u32, arm9_tcm_base: u32, arm7_base: u32) -> (r: Self)
        requires
            arm9_base != arm9_tcm_base,
        ensures
            r.wf(),
            r.wram.cnt == 0,
            r.cp15.itcm_size == 0,
            r.cp15.dtcm_size == 0,
            r.mmu_arm9.vmem.spec_base() == arm9_base,
            r.mmu_arm9.vmem_tcm.spec_base() == arm9_tcm_base,
            r.mmu_arm7.vmem.spec_base() == arm7_base,
            r.cp15.itcm_state == TcmState::Disabled,
            r.cp15.dtcm_state == TcmState::Disabled,
            forall|a: int| !(#[trigger] r.jit_memory_map.spec_has_jit_block(a)),
            forall|p: int| 0 <= p < MMU_PAGE_COUNT ==> #[trigger] r.mmu_arm9.plain_entry(p) == no_entry(),
            forall|p: int| 0 <= p < MMU_PAGE_COUNT ==> #[trigger] r.mmu_arm9.tcm_page_entry(p) == no_entry(),
            forall|p: int| 0 <= p < MMU_PAGE_COUNT ==> #[trigger] r.mmu_arm7.plain_entry(p) == no_entry(),
            forall|i: int| 0 <= i < SHM_SIZE ==> #[trigger] r.shm@[i] == 0,
    {
        Emu {
            shm: vec![0; SHM_SIZE],
            wram: Wram::new(0),
            cp15: Cp15 {
                itcm_size: 0,
                itcm_state: TcmState::Disabled,
                dtcm_addr: 0,
                dtcm_size: 0,
                dtcm_state: TcmState::Disabled,
            },
            jit_memory_map: JitMemoryMap::new(),
            mmu_arm9: MmuArm9::new(arm9_base, arm9_tcm_base),
            mmu_arm7: MmuArm7::new(arm7_base),
        }
    }
}

} // verus!

use vstd::prelude::*;
use crate::cpu::CpuType;
use crate::regions::{ARM7_WRAM_OFFSET, ARM7_WRAM_SHM_OFFSET, SHARED_WRAM_SHM_OFFSET};

verus! {

/// Banking of the shared work RAM between the two CPUs, as set by its control register.
#[derive(Clone, Copy, PartialEq, Eq, Structural, Debug)]
pub struct Wram {
    pub cnt: u8,
}

/// Arena offset that backs guest address `addr` of the work-RAM band for `cpu`,
/// or `usize::MAX` where that CPU sees no work RAM.
pub open spec fn spec_wram_offset(cnt: u8, cpu: CpuType, addr: u32) -> usize {
    let mode = cnt % 4;
    match cpu {
        CpuType::ARM9 => {
            if mode == 0 {
                (SHARED_WRAM_SHM_OFFSET + addr % 0x8000) as usize
            } else if mode == 1 {
                (SHARED_WRAM_SHM_OFFSET + 0x4000 + addr % 0x4000) as usize
            } else if mode == 2 {
                (SHARED_WRAM_SHM_OFFSET + addr % 0x4000) as usize
            } else {
                usize::MAX
            }
        },
        CpuType::ARM7 => {
            if addr >= ARM7_WRAM_OFFSET || mode == 0 {
                (ARM7_WRAM_SHM_OFFSET + addr % 0x1_0000) as usize
            } else if mode == 1 {
                (SHARED_WRAM_SHM_OFFSET + addr % 0x4000) as usize
            } else if mode == 2 {
                (SHARED_WRAM_SHM_OFFSET + 0x4000 + addr % 0x4000) as usize
            } else {
                (SHARED_WRAM_SHM_OFFSET + addr % 0x8000) as usize
            }
        },
    }
}

impl Wram {
    pub fn new(cnt: u8) -> (r: Self)
        ensures
            r.cnt == cnt,
    {
        Wram { cnt }
    }

    /// Arena offset that backs guest address `addr` of the work-RAM band for `cpu`.
    pub fn get_shm_offset(&self, cpu: CpuType, addr: u32) -> (r: usize)
        ensures
            r == spec_wram_offset(self.cnt, cpu, addr),
    {
        let mode = self.cnt % 4;
        match cpu {
            CpuType::ARM9 => {
                if mode == 0 {
                    SHARED_WRAM_SHM_OFFSET + addr as usize % 0x8000
                } else if mode == 1 {
                    SHARED_WRAM_SHM_OFFSET + 0x4000 + addr as usize % 0x4000
                } else if mode == 2 {
                    SHARED_WRAM_SHM_OFFSET + addr as usize % 0x4000
                } else {
                    usize::MAX
                }
            },
            CpuType::ARM7 => {
                if addr >= ARM7_WRAM_OFFSET || mode == 0 {
                    ARM7_WRAM_SHM_OFFSET + addr as usize % 0x1_0000
                } else if mode == 1 {
                    SHARED_WRAM_SHM_OFFSET + addr as usize % 0x4000
                } else if mode == 2 {
                    SHARED_WRAM_SHM_OFFSET + 0x4000 + addr as usize % 0x4000
                } else {
                    SHARED_WRAM_SHM_OFFSET + addr as usize % 0x8000
                }
            },
        }
    }
}

} // verus!

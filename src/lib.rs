//! Memory virtualization and block-compiler core of a two-CPU handheld
//! emulator: per-CPU page tables and memory windows over a shared backing
//! arena, and the emitters that turn decoded branches and memory accesses
//! into intermediate block code with fast and slow memory paths.

use vstd::prelude::*;

pub mod presenter;
pub mod regions;
pub mod vmem;
pub mod cpu;
pub mod wram;
pub mod jit_memory_map;
pub mod mmu;
pub mod emu;
pub mod reg;
pub mod inst_info;
pub mod block_asm;
pub mod jit_asm;
pub mod emit_branch;
pub mod emit_swi;
pub mod emit_transfer;

verus! {

} // verus!

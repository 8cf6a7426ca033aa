use vstd::prelude::*;
use crate::cpu::CpuType;
use crate::emu::Emu;
use crate::inst_info::InstInfo;

verus! {

/// Offset of the pre-charged cycle sum within the block's runtime data.
pub const PRE_CYCLE_COUNT_SUM_OFFSET: u32 = 4;

/// The instructions of the block being compiled, with the running cycle sums,
/// and the instruction currently being emitted.
pub struct JitBuf {
    pub insts: Vec<InstInfo>,
    /// Cycles of the block up to and including each instruction.
    pub insts_cycle_counts: Vec<u16>,
    pub current_index: usize,
    pub current_pc: u32,
}

/// The cycle sum of the first `n` instructions.
pub open spec fn cycle_sum(insts: Seq<InstInfo>, n: int) -> int
    decreases n,
{
    if n <= 0 {
        0
    } else {
        cycle_sum(insts, n - 1) + insts[n - 1].cycle
    }
}

pub proof fn lemma_cycle_sum_nonneg(insts: Seq<InstInfo>, n: int)
    ensures
        cycle_sum(insts, n) >= 0,
    decreases n,
{
    if n > 0 {
        lemma_cycle_sum_nonneg(insts, n - 1);
    }
}

impl JitBuf {
    /// Each running sum is the cycles of the instructions up to it.
    pub open spec fn wf(&self) -> bool {
        &&& self.insts@.len() == self.insts_cycle_counts@.len()
        &&& self.current_index < self.insts@.len()
        &&& forall|i: int|
            0 <= i < self.insts@.len() ==> #[trigger] self.insts_cycle_counts@[i] == cycle_sum(self.insts@, i + 1)
    }

    pub open spec fn spec_current_inst(&self) -> InstInfo {
        self.insts@[self.current_index as int]
    }

    pub open spec fn spec_current_cycles(&self) -> u16 {
        self.insts_cycle_counts@[self.current_index as int]
    }

    pub fn current_inst(&self) -> (r: InstInfo)
        requires
            self.wf(),
        ensures
            r == self.spec_current_inst(),
    {
        self.insts[self.current_index]
    }
}

/// Compiler of one block for one CPU: its instructions and the host
/// addresses that the emitted code refers to.
pub struct JitAsm {
    pub cpu: CpuType,
    pub jit_buf: JitBuf,
    /// Host address of guest address 0 in the window of the fast memory path.
    pub base_tcm_ptr: u32,
    /// Whether the second CPU's firmware is emulated at a high level.
    pub arm7_hle: bool,
    /// Host address of the guest register file.
    pub regs_addr: u32,
    /// Host address of the block's runtime data.
    pub runtime_data_addr: u32,
    /// Host address of this compiler, which the idle-loop handler takes.
    pub self_addr: u32,
}

impl JitAsm {
    /// A compiler for `cpu` whose fast path goes through the emulator's window,
    /// with an empty instruction buffer.
    pub fn new(emu: &Emu, cpu: CpuType, arm7_hle: bool, regs_addr: u32, runtime_data_addr: u32, self_addr: u32) -> (r: Self)
        ensures
            r.cpu == cpu,
            r.base_tcm_ptr == emu.spec_tcm_window(cpu).spec_base(),
            r.arm7_hle == arm7_hle,
            r.regs_addr == regs_addr,
            r.runtime_data_addr == runtime_data_addr,
            r.self_addr == self_addr,
            r.jit_buf.insts@.len() == 0,
    {
        JitAsm {
            cpu,
            jit_buf: JitBuf { insts: Vec::new(), insts_cycle_counts: Vec::new(), current_index: 0, current_pc: 0 },
            base_tcm_ptr: emu.mmu_get_base_tcm_ptr(cpu),
            arm7_hle,
            regs_addr,
            runtime_data_addr,
            self_addr,
        }
    }
}

/// A guest program counter aligned to its instruction set: to two bytes when
/// bit 0 marks Thumb code, else to four.
pub open spec fn spec_align_guest_pc(pc: u32) -> u32 {
    if pc & 1 == 1 {
        pc & !1u32
    } else {
        pc & !3u32
    }
}

pub fn align_guest_pc(pc: u32) -> (r: u32)
    ensures
        r == spec_align_guest_pc(pc),
{
    if pc & 1 == 1 {
        pc & !1u32
    } else {
        pc & !3u32
    }
}

} // verus!

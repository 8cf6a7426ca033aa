use vstd::prelude::*;
use crate::cpu::CpuType;
use crate::inst_info::{Cond, MemoryAmount, ShiftType};
use crate::reg::{Reg, RegReserve};

verus! {

/// A register of the block's intermediate code: a guest register, a virtual
/// register that the allocator places later, or a host register pinned for a
/// multi-register transfer.
#[derive(Clone, Copy, PartialEq, Eq, Structural, Debug)]
pub enum BlockReg {
    Guest(Reg),
    Any(u16),
    Fixed(Reg),
}

#[derive(Clone, Copy, PartialEq, Eq, Structural, Debug)]
pub enum BlockShift {
    Imm(u8),
    Reg(BlockReg),
}

#[derive(Clone, Copy, PartialEq, Eq, Structural, Debug)]
pub enum BlockOperand {
    Reg(BlockReg),
    Imm(u32),
    Shifted { reg: BlockReg, shift_type: ShiftType, amount: BlockShift },
}

/// Out-of-line functions that compiled code calls.
#[derive(Clone, Copy, PartialEq, Eq, Structural, Debug)]
pub enum CallTarget {
    /// Slow path of a single load or store.
    MemHandler { cpu: CpuType, write: bool, amount: MemoryAmount, signed: bool },
    /// Slow path of a load- or store-multiple.
    MemMultipleHandler { cpu: CpuType, write: bool, write_back: bool, decrement: bool },
    /// Fast-forwards the cycle counter to the next pending event.
    IdleLoop { hle: bool },
    /// Enters a guest exception.
    Exception { cpu: CpuType, thumb: bool },
}

/// One instruction of the block's intermediate code.
#[derive(Clone, Copy, PartialEq, Eq, Structural, Debug)]
pub enum BlockInst {
    Mov { dst: BlockReg, src: BlockOperand },
    Add { dst: BlockReg, lhs: BlockReg, rhs: BlockOperand },
    Sub { dst: BlockReg, lhs: BlockReg, rhs: BlockOperand },
    Bic { dst: BlockReg, lhs: BlockReg, rhs: BlockOperand },
    MrsCpsr(BlockReg),
    MsrCpsr(BlockReg),
    Branch { label: u16, cond: Cond },
    BranchFallthrough { label: u16, cond: Cond },
    Label { label: u16, unlikely: bool },
    GuestBranch { cond: Cond, target: u32 },
    SaveContext,
    RestoreReg(Reg),
    MarkRegDirty { reg: Reg, dirty: bool },
    Call2 { func: CallTarget, a0: BlockOperand, a1: BlockOperand },
    Call3 { func: CallTarget, a0: BlockOperand, a1: BlockOperand, a2: BlockOperand },
    Call4 { func: CallTarget, a0: BlockOperand, a1: BlockOperand, a2: BlockOperand, a3: BlockOperand },
    TransferRead { dst: BlockReg, addr: BlockReg, base: u32, signed: bool, amount: MemoryAmount },
    TransferWrite { src: BlockReg, addr: BlockReg, base: u32, amount: MemoryAmount },
    GuestTransferReadMultiple {
        addr: BlockReg,
        addr_out: BlockReg,
        gp_regs: RegReserve,
        fixed_regs: RegReserve,
        write_back: bool,
        pre: bool,
        add_to_base: bool,
    },
    GuestTransferWriteMultiple {
        addr: BlockReg,
        addr_out: BlockReg,
        gp_regs: RegReserve,
        fixed_regs: RegReserve,
        write_back: bool,
        pre: bool,
        add_to_base: bool,
    },
    StoreU16 { value: BlockReg, base: BlockReg, offset: u32 },
    /// Charges the cycles of the block up to here minus those already charged
    /// up to a target, and leaves for `breakout` when the scheduler has an
    /// event due. With `check_scheduler` (the first CPU) the flush itself
    /// returns to the scheduler once the code at `breakout` has saved the
    /// guest context; without it (the second CPU) that code leaves the block
    /// on its own.
    FlushCycles { total_cycles: BlockReg, target_pre_cycle_count_sum: BlockReg, check_scheduler: bool, breakout: u16 },
    /// Records why and where the block was left.
    BranchOutMetadata { idle_loop: bool, count_cycles: bool },
    Epilogue,
    EpiloguePreviousBlock,
    GenericData(u32),
    ForceEnd,
    /// Returns through the return-address stack.
    CallBranchReturnStack { total_cycles: u16, target: BlockReg, current_pc: u32 },
    CallBranchImmWithLrReturn { thumb: bool, total_cycles: u16, target_pc: u32, lr: BlockReg, current_pc: u32 },
    CallBranchRegWithLrReturn { total_cycles: u16, target: BlockReg, lr: BlockReg, current_pc: u32 },
    CallBranchImmNoReturn { total_cycles: u16, current_pc: u32, target_pc: u32 },
    CallBranchRegNoReturn { total_cycles: u16, target: BlockReg, current_pc: u32 },
    /// Enters the compiled block of guest address `target_pc`, compiling it first if needed.
    CallJitAddrImm { target_pc: u32, has_return: bool },
}

/// Builder of one block's intermediate code, with virtual registers and labels.
pub struct BlockAsm {
    pub insts: Vec<BlockInst>,
    /// Which virtual registers are currently held.
    pub live: Vec<bool>,
    pub label_count: u16,
}

impl BlockAsm {
    pub fn new() -> (r: Self)
        ensures
            r.insts@.len() == 0,
            r.live@.len() == 0,
            r.label_count == 0,
    {
        BlockAsm { insts: Vec::new(), live: Vec::new(), label_count: 0 }
    }

    /// Room for `regs` more virtual registers and `labels` more labels.
    pub open spec fn has_room(&self, regs: int, labels: int) -> bool {
        &&& self.live@.len() + regs <= u16::MAX
        &&& self.label_count + labels <= u16::MAX
    }

    /// Every virtual register acquired since `o` has been released again, and
    /// the registers held at `o` are still held.
    pub open spec fn released_since(&self, o: &BlockAsm) -> bool {
        &&& self.live@.len() >= o.live@.len()
        &&& forall|i: int| 0 <= i < o.live@.len() ==> #[trigger] self.live@[i] == o.live@[i]
        &&& forall|i: int| o.live@.len() <= i < self.live@.len() ==> !#[trigger] self.live@[i]
    }

    /// Acquires a fresh virtual register.
    pub fn new_reg(&mut self) -> (r: BlockReg)
        requires
            old(self).live@.len() < u16::MAX,
        ensures
            r == BlockReg::Any(old(self).live@.len() as u16),
            final(self).live@ == old(self).live@.push(true),
            final(self).insts == old(self).insts,
            final(self).label_count == old(self).label_count,
    {
        let id = self.live.len() as u16;
        self.live.push(true);
        BlockReg::Any(id)
    }

    /// Releases a virtual register.
    pub fn free_reg(&mut self, reg: BlockReg)
        requires
            reg matches BlockReg::Any(id) && id < old(self).live@.len() && old(self).live@[id as int],
        ensures
            final(self).live@ == old(self).live@.update(
                match reg {
                    BlockReg::Any(id) => id as int,
                    _ => 0,
                },
                false,
            ),
            final(self).insts == old(self).insts,
            final(self).label_count == old(self).label_count,
    {
        match reg {
            BlockReg::Any(id) => {
                self.live.set(id as usize, false);
            },
            _ => {},
        }
    }

    /// A fresh label.
    pub fn new_label(&mut self) -> (r: u16)
        requires
            old(self).label_count < u16::MAX,
        ensures
            r == old(self).label_count,
            final(self).label_count == old(self).label_count + 1,
            final(self).insts == old(self).insts,
            final(self).live == old(self).live,
    {
        let l = self.label_count;
        self.label_count = l + 1;
        l
    }

    /// Appends one instruction.
    pub fn emit(&mut self, inst: BlockInst)
        ensures
            final(self).insts@ == old(self).insts@.push(inst),
            final(self).live == old(self).live,
            final(self).label_count == old(self).label_count,
    {
        self.insts.push(inst);
    }
}

} // verus!

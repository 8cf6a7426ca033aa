use vstd::prelude::*;
use crate::reg::{Reg, RegReserve, PC_BIT};

verus! {

/// Condition under which an instruction executes.
#[derive(Clone, Copy, PartialEq, Eq, Structural, Debug)]
pub enum Cond {
    EQ,
    NE,
    CS,
    CC,
    MI,
    PL,
    VS,
    VC,
    HI,
    LS,
    GE,
    LT,
    GT,
    LE,
    AL,
    NV,
}

impl Cond {
    /// A real condition, neither "always" nor "never".
    pub open spec fn spec_is_conditional(self) -> bool {
        self != Cond::AL && self != Cond::NV
    }

    pub fn is_conditional(self) -> (r: bool)
        ensures
            r == self.spec_is_conditional(),
    {
        match self {
            Cond::AL | Cond::NV => false,
            _ => true,
        }
    }
}

#[derive(Clone, Copy, PartialEq, Eq, Structural, Debug)]
pub enum ShiftType {
    Lsl,
    Lsr,
    Asr,
    Ror,
}

/// Width of a memory transfer.
#[derive(Clone, Copy, PartialEq, Eq, Structural, Debug)]
pub enum MemoryAmount {
    Byte,
    Half,
    Word,
    Double,
}

impl MemoryAmount {
    pub open spec fn spec_size(self) -> u32 {
        match self {
            MemoryAmount::Byte => 1,
            MemoryAmount::Half => 2,
            MemoryAmount::Word => 4,
            MemoryAmount::Double => 8,
        }
    }

    /// Number of bytes moved.
    pub fn size(self) -> (r: u32)
        ensures
            r == self.spec_size(),
    {
        match self {
            MemoryAmount::Byte => 1,
            MemoryAmount::Half => 2,
            MemoryAmount::Word => 4,
            MemoryAmount::Double => 8,
        }
    }
}

/// Addressing of a single-register load or store.
#[derive(Clone, Copy, PartialEq, Eq, Structural, Debug)]
pub struct SingleTransfer {
    pub amount: MemoryAmount,
    pub signed: bool,
    pub pre: bool,
    pub write_back: bool,
    pub sub: bool,
}

/// Addressing of a load- or store-multiple.
#[derive(Clone, Copy, PartialEq, Eq, Structural, Debug)]
pub struct MultipleTransfer {
    pub pre: bool,
    pub write_back: bool,
    pub decrement: bool,
    pub user: bool,
}

/// Operation of a decoded instruction, as far as the core distinguishes them.
#[derive(Clone, Copy, PartialEq, Eq, Structural, Debug)]
pub enum Op {
    B,
    Bl,
    Bx,
    BlxReg,
    BlxLabel,
    BT,
    BlT,
    BxRegT,
    BlxRegT,
    Swi,
    SwiT,
    Mcr,
    Mrc,
    MrsRc,
    MrsRs,
    MsrIc,
    MsrIs,
    MsrRc,
    MsrRs,
    Mov,
    Add,
    Sub,
    Subs,
    Cmp,
    Tst,
    Mul,
    Ldr(SingleTransfer),
    Str(SingleTransfer),
    LdrPcT,
    Ldm(MultipleTransfer),
    Stm(MultipleTransfer),
    PushLrT,
    PopPcT,
    Swp,
    Swpb,
}

impl Op {
    pub open spec fn spec_is_branch_op(self) -> bool {
        match self {
            Op::B | Op::Bl | Op::Bx | Op::BlxReg | Op::BlxLabel | Op::BT | Op::BlT | Op::BxRegT | Op::BlxRegT => true,
            _ => false,
        }
    }

    /// System calls and coprocessor or status-register moves.
    pub open spec fn spec_is_system(self) -> bool {
        match self {
            Op::Swi | Op::SwiT | Op::Mcr | Op::Mrc | Op::MrsRc | Op::MrsRs | Op::MsrIc | Op::MsrIs | Op::MsrRc
            | Op::MsrRs => true,
            _ => false,
        }
    }

    pub open spec fn spec_mem_is_write(self) -> bool {
        match self {
            Op::Str(_) | Op::Stm(_) | Op::PushLrT | Op::Swp | Op::Swpb => true,
            _ => false,
        }
    }

    pub fn is_branch_op(self) -> (r: bool)
        ensures
            r == self.spec_is_branch_op(),
    {
        match self {
            Op::B | Op::Bl | Op::Bx | Op::BlxReg | Op::BlxLabel | Op::BT | Op::BlT | Op::BxRegT | Op::BlxRegT => true,
            _ => false,
        }
    }

    pub fn is_system(self) -> (r: bool)
        ensures
            r == self.spec_is_system(),
    {
        match self {
            Op::Swi | Op::SwiT | Op::Mcr | Op::Mrc | Op::MrsRc | Op::MrsRs | Op::MsrIc | Op::MsrIs | Op::MsrRc
            | Op::MsrRs => true,
            _ => false,
        }
    }

    /// Whether the instruction writes memory.
    pub fn mem_is_write(self) -> (r: bool)
        ensures
            r == self.spec_mem_is_write(),
    {
        match self {
            Op::Str(_) | Op::Stm(_) | Op::PushLrT | Op::Swp | Op::Swpb => true,
            _ => false,
        }
    }

    /// The addressing of a load- or store-multiple; push and pop are the
    /// descending, pre-indexed store and the ascending, post-indexed load.
    pub open spec fn spec_multiple(self) -> Option<MultipleTransfer> {
        match self {
            Op::Ldm(m) => Some(m),
            Op::Stm(m) => Some(m),
            Op::PushLrT => Some(MultipleTransfer { pre: true, write_back: true, decrement: true, user: false }),
            Op::PopPcT => Some(MultipleTransfer { pre: false, write_back: true, decrement: false, user: false }),
            _ => None,
        }
    }

    pub fn multiple(self) -> (r: Option<MultipleTransfer>)
        ensures
            r == self.spec_multiple(),
    {
        match self {
            Op::Ldm(m) => Some(m),
            Op::Stm(m) => Some(m),
            Op::PushLrT => Some(MultipleTransfer { pre: true, write_back: true, decrement: true, user: false }),
            Op::PopPcT => Some(MultipleTransfer { pre: false, write_back: true, decrement: false, user: false }),
            _ => None,
        }
    }

    /// The addressing of a single-register load or store.
    pub open spec fn spec_single(self) -> Option<SingleTransfer> {
        match self {
            Op::Ldr(s) => Some(s),
            Op::Str(s) => Some(s),
            Op::LdrPcT => Some(SingleTransfer { amount: MemoryAmount::Word, signed: false, pre: true, write_back: false, sub: false }),
            _ => None,
        }
    }

    pub fn single(self) -> (r: Option<SingleTransfer>)
        ensures
            r == self.spec_single(),
    {
        match self {
            Op::Ldr(s) => Some(s),
            Op::Str(s) => Some(s),
            Op::LdrPcT => Some(SingleTransfer { amount: MemoryAmount::Word, signed: false, pre: true, write_back: false, sub: false }),
            _ => None,
        }
    }
}

/// Second operand of a data or memory operation.
#[derive(Clone, Copy, PartialEq, Eq, Structural, Debug)]
pub enum ShiftValue {
    Reg(Reg),
    Imm(u8),
}

/// A shift applied to a register operand.
#[derive(Clone, Copy, PartialEq, Eq, Structural, Debug)]
pub struct Shift {
    pub shift_type: ShiftType,
    pub value: ShiftValue,
}

#[derive(Clone, Copy, PartialEq, Eq, Structural, Debug)]
pub enum Operand {
    Reg { reg: Reg, shift: Option<Shift> },
    Imm(u32),
    Empty,
}

impl Operand {
    pub open spec fn spec_as_reg_no_shift(self) -> Option<Reg> {
        match self {
            Operand::Reg { reg, shift: None } => Some(reg),
            _ => None,
        }
    }

    /// The register of a register operand that is not shifted.
    pub fn as_reg_no_shift(&self) -> (r: Option<Reg>)
        ensures
            r == self.spec_as_reg_no_shift(),
    {
        match self {
            Operand::Reg { reg, shift: None } => Some(*reg),
            _ => None,
        }
    }

    pub open spec fn spec_as_imm(self) -> Option<u32> {
        match self {
            Operand::Imm(v) => Some(v),
            _ => None,
        }
    }

    pub fn as_imm(&self) -> (r: Option<u32>)
        ensures
            r == self.spec_as_imm(),
    {
        match self {
            Operand::Imm(v) => Some(*v),
            _ => None,
        }
    }
}

/// A decoded instruction: its encoding, operation, condition, operands, the
/// registers it reads and writes, and its cycle cost.
#[derive(Clone, Copy, Debug)]
pub struct InstInfo {
    pub opcode: u32,
    pub op: Op,
    pub cond: Cond,
    pub operands: [Operand; 3],
    pub src_regs: RegReserve,
    pub out_regs: RegReserve,
    pub cycle: u8,
}

impl InstInfo {
    /// A branch: a branch operation, or any instruction that writes the program counter.
    pub open spec fn spec_is_branch(self) -> bool {
        self.op.spec_is_branch_op() || self.out_regs.0 & PC_BIT != 0
    }

    pub fn is_branch(&self) -> (r: bool)
        ensures
            r == self.spec_is_branch(),
    {
        self.op.is_branch_op() || self.out_regs.0 & PC_BIT != 0
    }
}

} // verus!

use vstd::prelude::*;
use crate::block_asm::{BlockAsm, BlockInst, BlockOperand, BlockReg, BlockShift, CallTarget};
use crate::cpu::CpuType;
use crate::inst_info::{Cond, MemoryAmount, Operand, Op, ShiftType, ShiftValue};
use crate::jit_asm::JitAsm;
use crate::reg::{has_bit, reg_bit, regs_below, spec_reg_from_index, spec_reg_index, Reg, RegReserve, GP_REGS_MASK, REG_BITS_MASK};

verus! {

/// Width of one fast-path access: a double word goes as two words.
pub open spec fn access_amount(amount: MemoryAmount) -> MemoryAmount {
    if amount == MemoryAmount::Double { MemoryAmount::Word } else { amount }
}

/// Bits cleared from a guest address on the fast path: the region-select
/// nibble and the alignment bits of one access.
pub open spec fn fast_addr_mask(amount: MemoryAmount) -> u32 {
    (0xF000_0000u32 | (access_amount(amount).spec_size() - 1) as u32) as u32
}

/// The register after `r` in numbering, which a double-word transfer also moves.
pub open spec fn next_reg(r: Reg) -> Reg {
    spec_reg_from_index((spec_reg_index(r) + 1) as u8)
}

/// The slow-path handler of a single load or store; only bytes and halfwords
/// are sign-extended.
pub open spec fn spec_mem_handler(cpu: CpuType, write: bool, signed: bool, amount: MemoryAmount) -> CallTarget {
    CallTarget::MemHandler {
        cpu,
        write,
        amount,
        signed: signed && (amount == MemoryAmount::Byte || amount == MemoryAmount::Half),
    }
}

/// A guest-program-counter argument, tagged with the Thumb bit.
pub open spec fn tagged_pc(pc: u32, thumb: bool) -> u32 {
    pc | if thumb { 1u32 } else { 0u32 }
}

pub proof fn lemma_concat_shape(o: Seq<BlockInst>, a: Seq<BlockInst>, b: Seq<BlockInst>, c: Seq<BlockInst>, d: Seq<BlockInst>, e: Seq<BlockInst>, f: Seq<BlockInst>)
    ensures
        o + a + (b + c) + d + e + f == o + (a + b + c + d + e + f),
{
    assert(o + a + (b + c) + d + e + f =~= o + (a + b + c + d + e + f));
}

pub proof fn lemma_concat_chain(o: Seq<BlockInst>, p: Seq<Seq<BlockInst>>)
    ensures
        p.fold_left(o, |acc: Seq<BlockInst>, x: Seq<BlockInst>| acc + x) == o + p.fold_left(Seq::empty(), |acc: Seq<BlockInst>, x: Seq<BlockInst>| acc + x),
    decreases p.len(),
{
    let f = |acc: Seq<BlockInst>, x: Seq<BlockInst>| acc + x;
    if p.len() > 0 {
        lemma_concat_chain(o, p.drop_last());
        let q = p.drop_last();
        assert(q.fold_left(o, f) + p.last() =~= o + (q.fold_left(Seq::empty(), f) + p.last()));
    } else {
        assert(o + Seq::<BlockInst>::empty() =~= o);
    }
}

/// Address of guest register `r` in the register file at `regs_addr`.
pub open spec fn reg_addr(regs_addr: u32, r: Reg) -> u32 {
    (regs_addr + 4 * spec_reg_index(r)) as u32
}

/// A store of the program counter stores it 12 bytes ahead.
pub open spec fn write_pc_seq(op0: Reg, value_reg: BlockReg, thumb: bool) -> Seq<BlockInst> {
    if !thumb && op0 == Reg::PC {
        seq![BlockInst::Add { dst: value_reg, lhs: value_reg, rhs: BlockOperand::Imm(4) }]
    } else {
        Seq::empty()
    }
}

impl JitAsm {
    pub fn get_inst_mem_handler_func(&self, write: bool, signed: bool, amount: MemoryAmount) -> (r: CallTarget)
        ensures
            r == spec_mem_handler(self.cpu, write, signed, amount),
    {
        let signed = match amount {
            MemoryAmount::Byte | MemoryAmount::Half => signed,
            MemoryAmount::Word | MemoryAmount::Double => false,
        };
        CallTarget::MemHandler { cpu: self.cpu, write, amount, signed }
    }

    /// Code of a store of `value_reg` (guest register `op0`) to the guest
    /// address in `addr_reg`: the fast path through the window, then the
    /// out-of-line slow path.
    #[verifier::opaque]
    pub open spec fn write_seq(&self, op0: Reg, value_reg: BlockReg, addr_reg: BlockReg, amount: MemoryAmount, thumb: bool, reg0: u16, label0: u16) -> Seq<BlockInst> {
        write_pc_seq(op0, value_reg, thumb)
            + self.write_fast_seq(value_reg, addr_reg, amount, reg0, label0)
            + self.write_double_seq(op0, addr_reg, amount, reg0)
            + self.write_slow_seq(op0, value_reg, addr_reg, amount, thumb, label0)
            + self.slow_tail_seq((label0 + 1) as u16)
            + seq![BlockInst::Label { label: (label0 + 1) as u16, unlikely: false }]
    }

    pub open spec fn write_fast_seq(&self, value_reg: BlockReg, addr_reg: BlockReg, amount: MemoryAmount, reg0: u16, label0: u16) -> Seq<BlockInst> {
        seq![
            BlockInst::Branch { label: label0, cond: Cond::NV },
            BlockInst::Bic { dst: BlockReg::Any((reg0 + 2) as u16), lhs: addr_reg, rhs: BlockOperand::Imm(fast_addr_mask(amount)) },
            BlockInst::TransferWrite { src: value_reg, addr: BlockReg::Any((reg0 + 2) as u16), base: self.base_tcm_ptr, amount: access_amount(amount) },
        ]
    }

    pub open spec fn write_double_seq(&self, op0: Reg, addr_reg: BlockReg, amount: MemoryAmount, reg0: u16) -> Seq<BlockInst> {
        let next_addr = BlockReg::Any((reg0 + 1) as u16);
        let masked = BlockReg::Any((reg0 + 2) as u16);
        if amount == MemoryAmount::Double {
            seq![
                BlockInst::Add { dst: next_addr, lhs: addr_reg, rhs: BlockOperand::Imm(4) },
                BlockInst::Bic { dst: masked, lhs: next_addr, rhs: BlockOperand::Imm(fast_addr_mask(amount)) },
                BlockInst::TransferWrite { src: BlockReg::Guest(next_reg(op0)), addr: masked, base: self.base_tcm_ptr, amount: MemoryAmount::Word },
            ]
        } else {
            Seq::empty()
        }
    }

    pub open spec fn write_slow_seq(&self, op0: Reg, value_reg: BlockReg, addr_reg: BlockReg, amount: MemoryAmount, thumb: bool, label0: u16) -> Seq<BlockInst> {
        seq![
            BlockInst::BranchFallthrough { label: (label0 + 1) as u16, cond: Cond::AL },
            BlockInst::Branch { label: label0, cond: Cond::AL },
            BlockInst::Label { label: label0, unlikely: true },
            BlockInst::SaveContext,
            BlockInst::Call4 {
                func: spec_mem_handler(self.cpu, true, false, amount),
                a0: BlockOperand::Reg(addr_reg),
                a1: BlockOperand::Reg(value_reg),
                a2: BlockOperand::Imm(tagged_pc(self.jit_buf.current_pc, thumb)),
                a3: BlockOperand::Imm((self.jit_buf.spec_current_cycles() as u32 | ((spec_reg_index(op0) as u32) << 16u32)) as u32),
            },
            BlockInst::RestoreReg(Reg::CPSR),
        ]
    }

    /// After a slow-path store: the first CPU ends the block there, with the
    /// instruction's encoding, so that code it may have overwritten is not run;
    /// the second CPU goes on.
    pub open spec fn slow_tail_seq(&self, cont: u16) -> Seq<BlockInst> {
        match self.cpu {
            CpuType::ARM9 => seq![
                BlockInst::BranchFallthrough { label: cont, cond: Cond::AL },
                BlockInst::GenericData(self.jit_buf.spec_current_inst().opcode),
                BlockInst::ForceEnd,
            ],
            CpuType::ARM7 => seq![BlockInst::Branch { label: cont, cond: Cond::AL }],
        }
    }

    #[verifier::rlimit(40)]
    fn emit_write(&mut self, op0: Reg, value_reg: BlockReg, addr_reg: BlockReg, block_asm: &mut BlockAsm, amount: MemoryAmount, thumb: bool)
        requires
            old(self).emit_ok(old(block_asm), 3, 2),
        ensures
            *final(self) == *old(self),
            final(block_asm).insts@ == old(block_asm).insts@ + old(self).write_seq(op0, value_reg, addr_reg, amount, thumb,
                old(block_asm).live@.len() as u16, old(block_asm).label_count),
            final(block_asm).released_since(old(block_asm)),
            final(block_asm).live@.len() == old(block_asm).live@.len() + 3,
            final(block_asm).label_count == old(block_asm).label_count + 2,
    {
        let ghost reg0 = old(block_asm).live@.len() as u16;
        let ghost label0 = old(block_asm).label_count;
        let fast_write_value_reg = block_asm.new_reg();
        let fast_write_next_addr_reg = block_asm.new_reg();
        let fast_write_addr_masked_reg = block_asm.new_reg();
        let slow_write_label = block_asm.new_label();
        let continue_label = block_asm.new_label();
        let ghost s0 = block_asm.insts@;
        if !thumb && op0 == Reg::PC {
            block_asm.emit(BlockInst::Add { dst: value_reg, lhs: value_reg, rhs: BlockOperand::Imm(4) });
        }
        proof {
            assert(block_asm.insts@ =~= s0 + write_pc_seq(op0, value_reg, thumb));
        }
        self.emit_write_fast(block_asm, op0, value_reg, addr_reg, amount, fast_write_addr_masked_reg, fast_write_next_addr_reg, slow_write_label, Ghost(reg0));
        self.emit_write_slow(block_asm, op0, value_reg, addr_reg, amount, thumb, slow_write_label);
        self.emit_slow_tail(block_asm, continue_label);
        block_asm.emit(BlockInst::Label { label: continue_label, unlikely: false });
        block_asm.free_reg(fast_write_addr_masked_reg);
        block_asm.free_reg(fast_write_next_addr_reg);
        block_asm.free_reg(fast_write_value_reg);
        proof {
            let o = old(block_asm).insts@;
            let a = write_pc_seq(op0, value_reg, thumb);
            let b = self.write_fast_seq(value_reg, addr_reg, amount, reg0, label0);
            let c = self.write_double_seq(op0, addr_reg, amount, reg0);
            let d = self.write_slow_seq(op0, value_reg, addr_reg, amount, thumb, label0);
            let e = self.slow_tail_seq(continue_label);
            let f = seq![BlockInst::Label { label: continue_label, unlikely: false }];
            assert(block_asm.insts@ == o + a + (b + c) + d + e + f);
            lemma_concat_shape(o, a, b, c, d, e, f);
            reveal(JitAsm::write_seq);
        }
    }

    fn emit_write_fast(&self, block_asm: &mut BlockAsm, op0: Reg, value_reg: BlockReg, addr_reg: BlockReg, amount: MemoryAmount,
        masked: BlockReg, next_addr: BlockReg, slow: u16, Ghost(reg0): Ghost<u16>)
        requires
            masked == BlockReg::Any((reg0 + 2) as u16),
            next_addr == BlockReg::Any((reg0 + 1) as u16),
        ensures
            final(block_asm).insts@ == old(block_asm).insts@ + (self.write_fast_seq(value_reg, addr_reg, amount, reg0, slow)
                + self.write_double_seq(op0, addr_reg, amount, reg0)),
            final(block_asm).live == old(block_asm).live,
            final(block_asm).label_count == old(block_asm).label_count,
    {
        block_asm.emit(BlockInst::Branch { label: slow, cond: Cond::NV });
        let base_ptr = self.base_tcm_ptr;
        let size = if amount == MemoryAmount::Double { MemoryAmount::Word.size() } else { amount.size() };
        let mask = 0xF000_0000u32 | (size - 1);
        let single_amount = if amount == MemoryAmount::Double { MemoryAmount::Word } else { amount };
        block_asm.emit(BlockInst::Bic { dst: masked, lhs: addr_reg, rhs: BlockOperand::Imm(mask) });
        block_asm.emit(BlockInst::TransferWrite { src: value_reg, addr: masked, base: base_ptr, amount: single_amount });
        let ghost s2 = block_asm.insts@;
        if amount == MemoryAmount::Double {
            let next = Reg::from_index(op0.index() + 1);
            block_asm.emit(BlockInst::Add { dst: next_addr, lhs: addr_reg, rhs: BlockOperand::Imm(4) });
            block_asm.emit(BlockInst::Bic { dst: masked, lhs: next_addr, rhs: BlockOperand::Imm(mask) });
            block_asm.emit(BlockInst::TransferWrite { src: BlockReg::Guest(next), addr: masked, base: base_ptr, amount: MemoryAmount::Word });
        }
        proof {
            assert(size == access_amount(amount).spec_size());
            assert(s2 =~= old(block_asm).insts@ + self.write_fast_seq(value_reg, addr_reg, amount, reg0, slow));
            assert(block_asm.insts@ =~= s2 + self.write_double_seq(op0, addr_reg, amount, reg0));
            assert(block_asm.insts@ =~= old(block_asm).insts@ + (self.write_fast_seq(value_reg, addr_reg, amount, reg0, slow)
                + self.write_double_seq(op0, addr_reg, amount, reg0)));
        }
    }

    fn emit_write_slow(&self, block_asm: &mut BlockAsm, op0: Reg, value_reg: BlockReg, addr_reg: BlockReg, amount: MemoryAmount, thumb: bool, slow: u16)
        requires
            self.jit_buf.wf(),
            slow < u16::MAX,
        ensures
            final(block_asm).insts@ == old(block_asm).insts@ + self.write_slow_seq(op0, value_reg, addr_reg, amount, thumb, slow),
            final(block_asm).live == old(block_asm).live,
            final(block_asm).label_count == old(block_asm).label_count,
    {
        block_asm.emit(BlockInst::BranchFallthrough { label: slow + 1, cond: Cond::AL });
        block_asm.emit(BlockInst::Branch { label: slow, cond: Cond::AL });
        block_asm.emit(BlockInst::Label { label: slow, unlikely: true });
        block_asm.emit(BlockInst::SaveContext);
        let func = self.get_inst_mem_handler_func(true, false, amount);
        let cycles = self.jit_buf.insts_cycle_counts[self.jit_buf.current_index] as u32;
        block_asm.emit(BlockInst::Call4 {
            func,
            a0: BlockOperand::Reg(addr_reg),
            a1: BlockOperand::Reg(value_reg),
            a2: BlockOperand::Imm(self.jit_buf.current_pc | if thumb { 1u32 } else { 0u32 }),
            a3: BlockOperand::Imm(cycles | ((op0.index() as u32) << 16u32)),
        });
        block_asm.emit(BlockInst::RestoreReg(Reg::CPSR));
        proof {
            assert(block_asm.insts@ =~= old(block_asm).insts@ + self.write_slow_seq(op0, value_reg, addr_reg, amount, thumb, slow));
        }
    }
}

impl JitAsm {
    fn emit_slow_tail(&self, block_asm: &mut BlockAsm, cont: u16)
        requires
            self.jit_buf.wf(),
        ensures
            final(block_asm).insts@ == old(block_asm).insts@ + self.slow_tail_seq(cont),
            final(block_asm).live == old(block_asm).live,
            final(block_asm).label_count == old(block_asm).label_count,
    {
        match self.cpu {
            CpuType::ARM9 => {
                block_asm.emit(BlockInst::BranchFallthrough { label: cont, cond: Cond::AL });
                block_asm.emit(BlockInst::GenericData(self.jit_buf.current_inst().opcode));
                block_asm.emit(BlockInst::ForceEnd);
            },
            CpuType::ARM7 => {
                block_asm.emit(BlockInst::Branch { label: cont, cond: Cond::AL });
            },
        }
        proof {
            assert(block_asm.insts@ =~= old(block_asm).insts@ + self.slow_tail_seq(cont));
        }
    }
}

/// Marks the loaded register, and its successor for a double word, as
/// written through the fast path (`dirty`) or not.
pub open spec fn dirty_seq(op0: Reg, amount: MemoryAmount, dirty: bool) -> Seq<BlockInst> {
    seq![BlockInst::MarkRegDirty { reg: op0, dirty }] + if amount == MemoryAmount::Double {
        seq![BlockInst::MarkRegDirty { reg: next_reg(op0), dirty }]
    } else {
        Seq::empty()
    }
}

/// Reloads the loaded register, and its successor for a double word.
pub open spec fn restore_loaded_seq(op0: Reg, amount: MemoryAmount) -> Seq<BlockInst> {
    seq![BlockInst::RestoreReg(op0)] + if amount == MemoryAmount::Double {
        seq![BlockInst::RestoreReg(next_reg(op0))]
    } else {
        Seq::empty()
    }
}

/// Word loads rotate the loaded value right by 8 times the low address bits.
pub open spec fn needs_ror(amount: MemoryAmount) -> bool {
    amount == MemoryAmount::Word || amount == MemoryAmount::Double
}

impl JitAsm {
    /// Code of a load into guest register `op0` from the guest address in
    /// `addr_reg`: the fast path through the window, with its rotation for
    /// words, then the out-of-line slow path, which reloads the registers the
    /// handler wrote and goes past the fast path's dirty marks.
    #[verifier::opaque]
    pub open spec fn read_seq(&self, op0: Reg, addr_reg: BlockReg, signed: bool, amount: MemoryAmount, thumb: bool, reg0: u16, label0: u16) -> Seq<BlockInst> {
        let slow = label0;
        let dirty = (label0 + 1) as u16;
        let cont = (label0 + 2) as u16;
        self.read_fast_seq(op0, addr_reg, signed, amount, reg0, slow)
            + dirty_seq(op0, amount, false)
            + seq![
                BlockInst::BranchFallthrough { label: dirty, cond: Cond::AL },
                BlockInst::Branch { label: slow, cond: Cond::AL },
                BlockInst::Label { label: slow, unlikely: true },
            ]
            + restore_loaded_seq(op0, amount)
            + self.read_call_seq(op0, addr_reg, signed, amount, thumb, (reg0 + 3) as u16)
            + restore_loaded_seq(op0, amount)
            + seq![
                BlockInst::RestoreReg(Reg::CPSR),
                BlockInst::Branch { label: cont, cond: Cond::AL },
                BlockInst::Label { label: dirty, unlikely: false },
            ]
            + dirty_seq(op0, amount, true)
            + seq![BlockInst::Label { label: cont, unlikely: false }]
    }

    pub open spec fn read_fast_seq(&self, op0: Reg, addr_reg: BlockReg, signed: bool, amount: MemoryAmount, reg0: u16, slow: u16) -> Seq<BlockInst> {
        let value = BlockReg::Any(reg0);
        let next_addr = BlockReg::Any((reg0 + 1) as u16);
        let masked = BlockReg::Any((reg0 + 2) as u16);
        let mask = fast_addr_mask(amount);
        let base = self.base_tcm_ptr;
        seq![
            BlockInst::Branch { label: slow, cond: Cond::NV },
            BlockInst::Bic { dst: masked, lhs: addr_reg, rhs: BlockOperand::Imm(mask) },
            BlockInst::TransferRead {
                dst: if needs_ror(amount) { value } else { BlockReg::Guest(op0) },
                addr: masked,
                base,
                signed,
                amount: access_amount(amount),
            },
        ] + (if needs_ror(amount) {
            seq![
                BlockInst::Mov { dst: masked, src: BlockOperand::Shifted { reg: addr_reg, shift_type: ShiftType::Lsl, amount: BlockShift::Imm(3) } },
                BlockInst::Mov { dst: BlockReg::Guest(op0), src: BlockOperand::Shifted { reg: value, shift_type: ShiftType::Ror, amount: BlockShift::Reg(masked) } },
            ]
        } else {
            Seq::empty()
        }) + (if amount == MemoryAmount::Double {
            seq![
                BlockInst::Add { dst: next_addr, lhs: addr_reg, rhs: BlockOperand::Imm(4) },
                BlockInst::Bic { dst: masked, lhs: next_addr, rhs: BlockOperand::Imm(mask) },
                BlockInst::TransferRead { dst: value, addr: masked, base, signed: false, amount: MemoryAmount::Word },
                BlockInst::Mov { dst: masked, src: BlockOperand::Shifted { reg: next_addr, shift_type: ShiftType::Lsl, amount: BlockShift::Imm(3) } },
                BlockInst::Mov { dst: BlockReg::Guest(next_reg(op0)), src: BlockOperand::Shifted { reg: value, shift_type: ShiftType::Ror, amount: BlockShift::Reg(masked) } },
            ]
        } else {
            Seq::empty()
        })
    }

    pub open spec fn read_call_seq(&self, op0: Reg, addr_reg: BlockReg, signed: bool, amount: MemoryAmount, thumb: bool, op0_addr_id: u16) -> Seq<BlockInst> {
        seq![
            BlockInst::SaveContext,
            BlockInst::Mov { dst: BlockReg::Any(op0_addr_id), src: BlockOperand::Imm(reg_addr(self.regs_addr, op0)) },
            BlockInst::Call4 {
                func: spec_mem_handler(self.cpu, false, signed, amount),
                a0: BlockOperand::Reg(addr_reg),
                a1: BlockOperand::Reg(BlockReg::Any(op0_addr_id)),
                a2: BlockOperand::Imm(tagged_pc(self.jit_buf.current_pc, thumb)),
                a3: BlockOperand::Imm(self.jit_buf.spec_current_cycles() as u32),
            },
        ]
    }

    fn emit_mark_dirty(block_asm: &mut BlockAsm, op0: Reg, amount: MemoryAmount, dirty: bool)
        ensures
            final(block_asm).insts@ == old(block_asm).insts@ + dirty_seq(op0, amount, dirty),
            final(block_asm).live == old(block_asm).live,
            final(block_asm).label_count == old(block_asm).label_count,
    {
        block_asm.emit(BlockInst::MarkRegDirty { reg: op0, dirty });
        if amount == MemoryAmount::Double {
            block_asm.emit(BlockInst::MarkRegDirty { reg: Reg::from_index(op0.index() + 1), dirty });
        }
        proof {
            assert(block_asm.insts@ =~= old(block_asm).insts@ + dirty_seq(op0, amount, dirty));
        }
    }

    fn emit_restore_loaded(block_asm: &mut BlockAsm, op0: Reg, amount: MemoryAmount)
        ensures
            final(block_asm).insts@ == old(block_asm).insts@ + restore_loaded_seq(op0, amount),
            final(block_asm).live == old(block_asm).live,
            final(block_asm).label_count == old(block_asm).label_count,
    {
        block_asm.emit(BlockInst::RestoreReg(op0));
        if amount == MemoryAmount::Double {
            block_asm.emit(BlockInst::RestoreReg(Reg::from_index(op0.index() + 1)));
        }
        proof {
            assert(block_asm.insts@ =~= old(block_asm).insts@ + restore_loaded_seq(op0, amount));
        }
    }

    fn emit_read_fast(&self, block_asm: &mut BlockAsm, op0: Reg, addr_reg: BlockReg, signed: bool, amount: MemoryAmount,
        value: BlockReg, next_addr: BlockReg, masked: BlockReg, slow: u16, Ghost(reg0): Ghost<u16>)
        requires
            value == BlockReg::Any(reg0),
            next_addr == BlockReg::Any((reg0 + 1) as u16),
            masked == BlockReg::Any((reg0 + 2) as u16),
        ensures
            final(block_asm).insts@ == old(block_asm).insts@ + self.read_fast_seq(op0, addr_reg, signed, amount, reg0, slow),
            final(block_asm).live == old(block_asm).live,
            final(block_asm).label_count == old(block_asm).label_count,
    {
        block_asm.emit(BlockInst::Branch { label: slow, cond: Cond::NV });
        let base_ptr = self.base_tcm_ptr;
        let size = if amount == MemoryAmount::Double { MemoryAmount::Word.size() } else { amount.size() };
        let mask = 0xF000_0000u32 | (size - 1);
        let ror = amount == MemoryAmount::Word || amount == MemoryAmount::Double;
        block_asm.emit(BlockInst::Bic { dst: masked, lhs: addr_reg, rhs: BlockOperand::Imm(mask) });
        block_asm.emit(BlockInst::TransferRead {
            dst: if ror { value } else { BlockReg::Guest(op0) },
            addr: masked,
            base: base_ptr,
            signed,
            amount: if amount == MemoryAmount::Double { MemoryAmount::Word } else { amount },
        });
        if ror {
            block_asm.emit(BlockInst::Mov { dst: masked, src: BlockOperand::Shifted { reg: addr_reg, shift_type: ShiftType::Lsl, amount: BlockShift::Imm(3) } });
            block_asm.emit(BlockInst::Mov { dst: BlockReg::Guest(op0), src: BlockOperand::Shifted { reg: value, shift_type: ShiftType::Ror, amount: BlockShift::Reg(masked) } });
        }
        if amount == MemoryAmount::Double {
            let next = Reg::from_index(op0.index() + 1);
            block_asm.emit(BlockInst::Add { dst: next_addr, lhs: addr_reg, rhs: BlockOperand::Imm(4) });
            block_asm.emit(BlockInst::Bic { dst: masked, lhs: next_addr, rhs: BlockOperand::Imm(mask) });
            block_asm.emit(BlockInst::TransferRead { dst: value, addr: masked, base: base_ptr, signed: false, amount: MemoryAmount::Word });
            block_asm.emit(BlockInst::Mov { dst: masked, src: BlockOperand::Shifted { reg: next_addr, shift_type: ShiftType::Lsl, amount: BlockShift::Imm(3) } });
            block_asm.emit(BlockInst::Mov { dst: BlockReg::Guest(next), src: BlockOperand::Shifted { reg: value, shift_type: ShiftType::Ror, amount: BlockShift::Reg(masked) } });
        }
        proof {
            assert(size == access_amount(amount).spec_size());
            assert(block_asm.insts@ =~= old(block_asm).insts@ + self.read_fast_seq(op0, addr_reg, signed, amount, reg0, slow));
        }
    }

    fn emit_read_call(&self, block_asm: &mut BlockAsm, op0: Reg, addr_reg: BlockReg, signed: bool, amount: MemoryAmount, thumb: bool, op0_addr_reg: BlockReg,
        Ghost(id): Ghost<u16>)
        requires
            self.jit_buf.wf(),
            self.regs_addr + 4 * 18 <= u32::MAX,
            op0_addr_reg == BlockReg::Any(id),
        ensures
            final(block_asm).insts@ == old(block_asm).insts@ + self.read_call_seq(op0, addr_reg, signed, amount, thumb, id),
            final(block_asm).live == old(block_asm).live,
            final(block_asm).label_count == old(block_asm).label_count,
    {
        block_asm.emit(BlockInst::SaveContext);
        let op0_addr = self.regs_addr + 4 * op0.index() as u32;
        block_asm.emit(BlockInst::Mov { dst: op0_addr_reg, src: BlockOperand::Imm(op0_addr) });
        let func = self.get_inst_mem_handler_func(false, signed, amount);
        block_asm.emit(BlockInst::Call4 {
            func,
            a0: BlockOperand::Reg(addr_reg),
            a1: BlockOperand::Reg(op0_addr_reg),
            a2: BlockOperand::Imm(self.jit_buf.current_pc | if thumb { 1u32 } else { 0u32 }),
            a3: BlockOperand::Imm(self.jit_buf.insts_cycle_counts[self.jit_buf.current_index] as u32),
        });
        proof {
            assert(block_asm.insts@ =~= old(block_asm).insts@ + self.read_call_seq(op0, addr_reg, signed, amount, thumb, id));
        }
    }

    #[verifier::rlimit(40)]
    fn emit_read(&mut self, op0: Reg, addr_reg: BlockReg, block_asm: &mut BlockAsm, signed: bool, amount: MemoryAmount, thumb: bool)
        requires
            old(self).emit_ok(old(block_asm), 4, 3),
            old(self).regs_addr + 4 * 18 <= u32::MAX,
        ensures
            *final(self) == *old(self),
            final(block_asm).insts@ == old(block_asm).insts@ + old(self).read_seq(op0, addr_reg, signed, amount, thumb,
                old(block_asm).live@.len() as u16, old(block_asm).label_count),
            final(block_asm).released_since(old(block_asm)),
            final(block_asm).live@.len() == old(block_asm).live@.len() + 4,
            final(block_asm).label_count == old(block_asm).label_count + 3,
    {
        let ghost reg0 = old(block_asm).live@.len() as u16;
        let ghost label0 = old(block_asm).label_count;
        let fast_read_value_reg = block_asm.new_reg();
        let fast_read_next_addr_reg = block_asm.new_reg();
        let fast_read_addr_masked_reg = block_asm.new_reg();
        let slow_read_label = block_asm.new_label();
        let fast_mem_mark_dirty_label = block_asm.new_label();
        let continue_label = block_asm.new_label();
        self.emit_read_fast(block_asm, op0, addr_reg, signed, amount, fast_read_value_reg, fast_read_next_addr_reg, fast_read_addr_masked_reg,
            slow_read_label, Ghost(reg0));
        Self::emit_mark_dirty(block_asm, op0, amount, false);
        let ghost s2 = block_asm.insts@;
        block_asm.emit(BlockInst::BranchFallthrough { label: fast_mem_mark_dirty_label, cond: Cond::AL });
        block_asm.emit(BlockInst::Branch { label: slow_read_label, cond: Cond::AL });
        block_asm.emit(BlockInst::Label { label: slow_read_label, unlikely: true });
        let ghost s3 = block_asm.insts@;
        Self::emit_restore_loaded(block_asm, op0, amount);
        let op0_addr_reg = block_asm.new_reg();
        self.emit_read_call(block_asm, op0, addr_reg, signed, amount, thumb, op0_addr_reg, Ghost((reg0 + 3) as u16));
        Self::emit_restore_loaded(block_asm, op0, amount);
        let ghost s6 = block_asm.insts@;
        block_asm.emit(BlockInst::RestoreReg(Reg::CPSR));
        block_asm.emit(BlockInst::Branch { label: continue_label, cond: Cond::AL });
        block_asm.emit(BlockInst::Label { label: fast_mem_mark_dirty_label, unlikely: false });
        let ghost s7 = block_asm.insts@;
        Self::emit_mark_dirty(block_asm, op0, amount, true);
        let ghost s8 = block_asm.insts@;
        block_asm.emit(BlockInst::Label { label: continue_label, unlikely: false });
        block_asm.free_reg(fast_read_addr_masked_reg);
        block_asm.free_reg(fast_read_next_addr_reg);
        block_asm.free_reg(fast_read_value_reg);
        block_asm.free_reg(op0_addr_reg);
        proof {
            let f = |acc: Seq<BlockInst>, x: Seq<BlockInst>| acc + x;
            let slow = label0;
            let dirty = (label0 + 1) as u16;
            let cont = (label0 + 2) as u16;
            let parts = seq![
                self.read_fast_seq(op0, addr_reg, signed, amount, reg0, slow),
                dirty_seq(op0, amount, false),
                seq![
                    BlockInst::BranchFallthrough { label: dirty, cond: Cond::AL },
                    BlockInst::Branch { label: slow, cond: Cond::AL },
                    BlockInst::Label { label: slow, unlikely: true },
                ],
                restore_loaded_seq(op0, amount),
                self.read_call_seq(op0, addr_reg, signed, amount, thumb, (reg0 + 3) as u16),
                restore_loaded_seq(op0, amount),
                seq![
                    BlockInst::RestoreReg(Reg::CPSR),
                    BlockInst::Branch { label: cont, cond: Cond::AL },
                    BlockInst::Label { label: dirty, unlikely: false },
                ],
                dirty_seq(op0, amount, true),
                seq![BlockInst::Label { label: cont, unlikely: false }],
            ];
            assert(s3 =~= s2 + parts[2]);
            assert(s7 =~= s6 + parts[6]);
            assert(block_asm.insts@ =~= s8 + parts[8]);
            lemma_concat_chain(old(block_asm).insts@, parts);
            assert(parts.fold_left(Seq::empty(), f) == self.read_seq(op0, addr_reg, signed, amount, thumb, reg0, label0)) by {
                reveal(JitAsm::read_seq);
                reveal_with_fuel(Seq::fold_left, 10);
            }
            assert(parts.fold_left(old(block_asm).insts@, f) == block_asm.insts@) by {
                reveal_with_fuel(Seq::fold_left, 10);
            }
        }
    }
}

/// An instruction operand as an operand of the block's code.
pub open spec fn spec_block_operand(op: Operand) -> BlockOperand {
    match op {
        Operand::Reg { reg, shift: None } => BlockOperand::Reg(BlockReg::Guest(reg)),
        Operand::Reg { reg, shift: Some(sh) } => BlockOperand::Shifted {
            reg: BlockReg::Guest(reg),
            shift_type: sh.shift_type,
            amount: match sh.value {
                ShiftValue::Imm(n) => BlockShift::Imm(n),
                ShiftValue::Reg(r) => BlockShift::Reg(BlockReg::Guest(r)),
            },
        },
        Operand::Imm(v) => BlockOperand::Imm(v),
        Operand::Empty => BlockOperand::Imm(0),
    }
}

pub fn block_operand(op: Operand) -> (r: BlockOperand)
    ensures
        r == spec_block_operand(op),
{
    match op {
        Operand::Reg { reg, shift: None } => BlockOperand::Reg(BlockReg::Guest(reg)),
        Operand::Reg { reg, shift: Some(sh) } => BlockOperand::Shifted {
            reg: BlockReg::Guest(reg),
            shift_type: sh.shift_type,
            amount: match sh.value {
                ShiftValue::Imm(n) => BlockShift::Imm(n),
                ShiftValue::Reg(r) => BlockShift::Reg(BlockReg::Guest(r)),
            },
        },
        Operand::Imm(v) => BlockOperand::Imm(v),
        Operand::Empty => BlockOperand::Imm(0),
    }
}

/// The address after the transfer: the base register plus or minus the offset operand.
pub open spec fn post_addr_seq(post: BlockReg, op1: Reg, op2: Operand, sub: bool) -> Seq<BlockInst> {
    match op2 {
        Operand::Empty => Seq::empty(),
        _ => if sub {
            seq![BlockInst::Sub { dst: post, lhs: BlockReg::Guest(op1), rhs: spec_block_operand(op2) }]
        } else {
            seq![BlockInst::Add { dst: post, lhs: BlockReg::Guest(op1), rhs: spec_block_operand(op2) }]
        },
    }
}

/// The operands of a single load or store are registers but for the offset.
pub open spec fn single_operands_ok(inst: crate::inst_info::InstInfo) -> bool {
    &&& inst.operands[0].spec_as_reg_no_shift() is Some
    &&& inst.operands[1].spec_as_reg_no_shift() is Some
}

fn emit_post_addr(block_asm: &mut BlockAsm, post: BlockReg, op1: Reg, op2: Operand, sub: bool)
    ensures
        final(block_asm).insts@ == old(block_asm).insts@ + post_addr_seq(post, op1, op2, sub),
        final(block_asm).live == old(block_asm).live,
        final(block_asm).label_count == old(block_asm).label_count,
{
    match op2 {
        Operand::Empty => {},
        _ => {
            let operand = block_operand(op2);
            if sub {
                block_asm.emit(BlockInst::Sub { dst: post, lhs: BlockReg::Guest(op1), rhs: operand });
            } else {
                block_asm.emit(BlockInst::Add { dst: post, lhs: BlockReg::Guest(op1), rhs: operand });
            }
        },
    }
    proof {
        assert(block_asm.insts@ =~= old(block_asm).insts@ + post_addr_seq(post, op1, op2, sub));
    }
}

impl JitAsm {
    pub open spec fn transfer_regs(&self) -> (Reg, Reg, Operand) {
        let inst = self.jit_buf.spec_current_inst();
        (inst.operands[0].spec_as_reg_no_shift()->0, inst.operands[1].spec_as_reg_no_shift()->0, inst.operands[2])
    }

    /// Code of a single store of the current instruction.
    pub open spec fn single_write_seq(&self, pre: bool, write_back: bool, amount: MemoryAmount, thumb: bool, reg0: u16, label0: u16) -> Seq<BlockInst> {
        let (op0, op1, op2) = self.transfer_regs();
        let sub = self.jit_buf.spec_current_inst().op.spec_single()->0.sub;
        let post = BlockReg::Any(reg0);
        let addr_reg = if pre { post } else { BlockReg::Any((reg0 + 1) as u16) };
        let value_id = if pre { (reg0 + 1) as u16 } else { (reg0 + 2) as u16 };
        post_addr_seq(post, op1, op2, sub)
            + (if pre { Seq::empty() } else { seq![BlockInst::Mov { dst: addr_reg, src: BlockOperand::Reg(BlockReg::Guest(op1)) }] })
            + seq![BlockInst::Mov { dst: BlockReg::Any(value_id), src: BlockOperand::Reg(BlockReg::Guest(op0)) }]
            + (if write_back { seq![BlockInst::Mov { dst: BlockReg::Guest(op1), src: BlockOperand::Reg(post) }] } else { Seq::empty() })
            + self.write_seq(op0, BlockReg::Any(value_id), addr_reg, amount, thumb, (value_id + 1) as u16, label0)
    }

    /// Code of a single load of the current instruction.
    pub open spec fn single_read_seq(&self, pre: bool, write_back: bool, amount: MemoryAmount, thumb: bool, reg0: u16, label0: u16) -> Seq<BlockInst> {
        let (op0, op1, op2) = self.transfer_regs();
        let op = self.jit_buf.spec_current_inst().op;
        let single = op.spec_single()->0;
        let post = BlockReg::Any(reg0);
        let addr_reg = if pre { post } else { BlockReg::Any((reg0 + 1) as u16) };
        let next_id = if pre { (reg0 + 1) as u16 } else { (reg0 + 2) as u16 };
        post_addr_seq(post, op1, op2, single.sub)
            + (if op == Op::LdrPcT { seq![BlockInst::Bic { dst: post, lhs: post, rhs: BlockOperand::Imm(3) }] } else { Seq::empty() })
            + (if pre { Seq::empty() } else { seq![BlockInst::Mov { dst: addr_reg, src: BlockOperand::Reg(BlockReg::Guest(op1)) }] })
            + (if write_back && op0 != op1 { seq![BlockInst::Mov { dst: BlockReg::Guest(op1), src: BlockOperand::Reg(post) }] } else { Seq::empty() })
            + self.read_seq(op0, addr_reg, single.signed, amount, thumb, next_id, label0)
    }

    pub open spec fn transfer_ok(&self, block_asm: &BlockAsm, regs: int, labels: int) -> bool {
        &&& self.emit_ok(block_asm, regs, labels)
        &&& self.regs_addr + 4 * 18 <= u32::MAX
    }

    #[verifier::rlimit(40)]
    fn emit_single_transfer_write(&mut self, block_asm: &mut BlockAsm, pre: bool, write_back: bool, amount: MemoryAmount, thumb: bool)
        requires
            old(self).transfer_ok(old(block_asm), 6, 2),
            single_operands_ok(old(self).jit_buf.spec_current_inst()),
            old(self).jit_buf.spec_current_inst().op.spec_single() is Some,
        ensures
            *final(self) == *old(self),
            final(block_asm).insts@ == old(block_asm).insts@ + old(self).single_write_seq(pre, write_back, amount, thumb,
                old(block_asm).live@.len() as u16, old(block_asm).label_count),
            final(block_asm).released_since(old(block_asm)),
            final(block_asm).label_count == old(block_asm).label_count + 2,
    {
        let ghost reg0 = old(block_asm).live@.len() as u16;
        let inst_info = self.jit_buf.current_inst();
        let op0 = match inst_info.operands[0].as_reg_no_shift() { Some(r) => r, None => Reg::R0 };
        let op1 = match inst_info.operands[1].as_reg_no_shift() { Some(r) => r, None => Reg::R0 };
        let op2 = inst_info.operands[2];
        let sub = match inst_info.op.single() { Some(t) => t.sub, None => false };
        let post_addr_reg = block_asm.new_reg();
        emit_post_addr(block_asm, post_addr_reg, op1, op2, sub);
        let ghost s1 = block_asm.insts@;
        let addr_reg = if pre {
            post_addr_reg
        } else {
            let reg = block_asm.new_reg();
            block_asm.emit(BlockInst::Mov { dst: reg, src: BlockOperand::Reg(BlockReg::Guest(op1)) });
            reg
        };
        let ghost s2 = block_asm.insts@;
        let value_reg = block_asm.new_reg();
        block_asm.emit(BlockInst::Mov { dst: value_reg, src: BlockOperand::Reg(BlockReg::Guest(op0)) });
        let ghost s3 = block_asm.insts@;
        if write_back {
            block_asm.emit(BlockInst::Mov { dst: BlockReg::Guest(op1), src: BlockOperand::Reg(post_addr_reg) });
        }
        let ghost s4 = block_asm.insts@;
        self.emit_write(op0, value_reg, addr_reg, block_asm, amount, thumb);
        block_asm.free_reg(value_reg);
        if !pre {
            block_asm.free_reg(addr_reg);
        }
        block_asm.free_reg(post_addr_reg);
        proof {
            let f = |acc: Seq<BlockInst>, x: Seq<BlockInst>| acc + x;
            let value_id = if pre { (reg0 + 1) as u16 } else { (reg0 + 2) as u16 };
            let parts = seq![
                post_addr_seq(post_addr_reg, op1, op2, sub),
                (if pre { Seq::empty() } else { seq![BlockInst::Mov { dst: addr_reg, src: BlockOperand::Reg(BlockReg::Guest(op1)) }] }),
                seq![BlockInst::Mov { dst: BlockReg::Any(value_id), src: BlockOperand::Reg(BlockReg::Guest(op0)) }],
                (if write_back { seq![BlockInst::Mov { dst: BlockReg::Guest(op1), src: BlockOperand::Reg(post_addr_reg) }] } else { Seq::<BlockInst>::empty() }),
                self.write_seq(op0, BlockReg::Any(value_id), addr_reg, amount, thumb, (value_id + 1) as u16, old(block_asm).label_count),
            ];
            assert(s2 =~= s1 + parts[1]);
            assert(s3 =~= s2 + parts[2]);
            assert(s4 =~= s3 + parts[3]);
            lemma_concat_chain(old(block_asm).insts@, parts);
            assert(parts.fold_left(Seq::empty(), f) == self.single_write_seq(pre, write_back, amount, thumb, reg0, old(block_asm).label_count)) by {
                reveal_with_fuel(Seq::fold_left, 6);
            }
            assert(parts.fold_left(old(block_asm).insts@, f) == block_asm.insts@) by {
                reveal_with_fuel(Seq::fold_left, 6);
            }
        }
    }

    #[verifier::rlimit(40)]
    fn emit_single_transfer_read(&mut self, block_asm: &mut BlockAsm, pre: bool, write_back: bool, amount: MemoryAmount, thumb: bool)
        requires
            old(self).transfer_ok(old(block_asm), 6, 3),
            single_operands_ok(old(self).jit_buf.spec_current_inst()),
            old(self).jit_buf.spec_current_inst().op.spec_single() is Some,
        ensures
            *final(self) == *old(self),
            final(block_asm).insts@ == old(block_asm).insts@ + old(self).single_read_seq(pre, write_back, amount, thumb,
                old(block_asm).live@.len() as u16, old(block_asm).label_count),
            final(block_asm).released_since(old(block_asm)),
            final(block_asm).label_count == old(block_asm).label_count + 3,
    {
        let ghost reg0 = old(block_asm).live@.len() as u16;
        let inst_info = self.jit_buf.current_inst();
        let op = inst_info.op;
        let op0 = match inst_info.operands[0].as_reg_no_shift() { Some(r) => r, None => Reg::R0 };
        let op1 = match inst_info.operands[1].as_reg_no_shift() { Some(r) => r, None => Reg::R0 };
        let op2 = inst_info.operands[2];
        let (sub, signed) = match op.single() { Some(t) => (t.sub, t.signed), None => (false, false) };
        let post_addr_reg = block_asm.new_reg();
        emit_post_addr(block_asm, post_addr_reg, op1, op2, sub);
        let ghost s1 = block_asm.insts@;
        if op == Op::LdrPcT {
            block_asm.emit(BlockInst::Bic { dst: post_addr_reg, lhs: post_addr_reg, rhs: BlockOperand::Imm(3) });
        }
        let ghost s2 = block_asm.insts@;
        let addr_reg = if pre {
            post_addr_reg
        } else {
            let reg = block_asm.new_reg();
            block_asm.emit(BlockInst::Mov { dst: reg, src: BlockOperand::Reg(BlockReg::Guest(op1)) });
            reg
        };
        let ghost s3 = block_asm.insts@;
        if write_back && op0 != op1 {
            block_asm.emit(BlockInst::Mov { dst: BlockReg::Guest(op1), src: BlockOperand::Reg(post_addr_reg) });
        }
        let ghost s4 = block_asm.insts@;
        self.emit_read(op0, addr_reg, block_asm, signed, amount, thumb);
        if !pre {
            block_asm.free_reg(addr_reg);
        }
        block_asm.free_reg(post_addr_reg);
        proof {
            let f = |acc: Seq<BlockInst>, x: Seq<BlockInst>| acc + x;
            let next_id = if pre { (reg0 + 1) as u16 } else { (reg0 + 2) as u16 };
            let parts = seq![
                post_addr_seq(post_addr_reg, op1, op2, sub),
                (if op == Op::LdrPcT { seq![BlockInst::Bic { dst: post_addr_reg, lhs: post_addr_reg, rhs: BlockOperand::Imm(3) }] } else { Seq::empty() }),
                (if pre { Seq::empty() } else { seq![BlockInst::Mov { dst: addr_reg, src: BlockOperand::Reg(BlockReg::Guest(op1)) }] }),
                (if write_back && op0 != op1 { seq![BlockInst::Mov { dst: BlockReg::Guest(op1), src: BlockOperand::Reg(post_addr_reg) }] } else { Seq::<BlockInst>::empty() }),
                self.read_seq(op0, addr_reg, signed, amount, thumb, next_id, old(block_asm).label_count),
            ];
            assert(s2 =~= s1 + parts[1]);
            assert(s3 =~= s2 + parts[2]);
            assert(s4 =~= s3 + parts[3]);
            lemma_concat_chain(old(block_asm).insts@, parts);
            assert(parts.fold_left(Seq::empty(), f) == self.single_read_seq(pre, write_back, amount, thumb, reg0, old(block_asm).label_count)) by {
                reveal_with_fuel(Seq::fold_left, 6);
            }
            assert(parts.fold_left(old(block_asm).insts@, f) == block_asm.insts@) by {
                reveal_with_fuel(Seq::fold_left, 6);
            }
        }
    }
}

impl JitAsm {
    /// Emits a single load or store of the current instruction, with the
    /// given indexing, write-back and width.
    pub fn emit_single_transfer(&mut self, block_asm: &mut BlockAsm, write: bool, pre: bool, write_back: bool, amount: MemoryAmount, thumb: bool)
        requires
            old(self).transfer_ok(old(block_asm), 6, 3),
            single_operands_ok(old(self).jit_buf.spec_current_inst()),
            old(self).jit_buf.spec_current_inst().op.spec_single() is Some,
        ensures
            *final(self) == *old(self),
            final(block_asm).insts@ == old(block_asm).insts@ + if write {
                old(self).single_write_seq(pre, write_back, amount, thumb, old(block_asm).live@.len() as u16, old(block_asm).label_count)
            } else {
                old(self).single_read_seq(pre, write_back, amount, thumb, old(block_asm).live@.len() as u16, old(block_asm).label_count)
            },
            final(block_asm).released_since(old(block_asm)),
    {
        if write {
            self.emit_single_transfer_write(block_asm, pre, write_back, amount, thumb)
        } else {
            self.emit_single_transfer_read(block_asm, pre, write_back, amount, thumb)
        }
    }

    /// Emits the store of the current instruction, as its operation gives it.
    pub fn emit_single_write(&mut self, block_asm: &mut BlockAsm)
        requires
            old(self).transfer_ok(old(block_asm), 6, 3),
            single_operands_ok(old(self).jit_buf.spec_current_inst()),
            old(self).jit_buf.spec_current_inst().op.spec_single() is Some,
        ensures
            *final(self) == *old(self),
            ({
                let t = old(self).jit_buf.spec_current_inst().op.spec_single()->0;
                final(block_asm).insts@ == old(block_asm).insts@ + old(self).single_write_seq(t.pre, t.write_back, t.amount, false,
                    old(block_asm).live@.len() as u16, old(block_asm).label_count)
            }),
            final(block_asm).released_since(old(block_asm)),
    {
        let t = match self.jit_buf.current_inst().op.single() {
            Some(t) => t,
            None => crate::inst_info::SingleTransfer { amount: MemoryAmount::Word, signed: false, pre: false, write_back: false, sub: false },
        };
        self.emit_single_transfer(block_asm, true, t.pre, t.write_back, t.amount, false);
    }

    /// Emits the load of the current instruction, as its operation gives it.
    pub fn emit_single_read(&mut self, block_asm: &mut BlockAsm)
        requires
            old(self).transfer_ok(old(block_asm), 6, 3),
            single_operands_ok(old(self).jit_buf.spec_current_inst()),
            old(self).jit_buf.spec_current_inst().op.spec_single() is Some,
        ensures
            *final(self) == *old(self),
            ({
                let t = old(self).jit_buf.spec_current_inst().op.spec_single()->0;
                final(block_asm).insts@ == old(block_asm).insts@ + old(self).single_read_seq(t.pre, t.write_back, t.amount, false,
                    old(block_asm).live@.len() as u16, old(block_asm).label_count)
            }),
            final(block_asm).released_since(old(block_asm)),
    {
        let t = match self.jit_buf.current_inst().op.single() {
            Some(t) => t,
            None => crate::inst_info::SingleTransfer { amount: MemoryAmount::Word, signed: false, pre: false, write_back: false, sub: false },
        };
        self.emit_single_transfer(block_asm, false, t.pre, t.write_back, t.amount, false);
    }

    /// Code of a swap: load the old value at the address in the third
    /// register into the first, store the second register there.
    pub open spec fn swp_seq(&self, amount: MemoryAmount, reg0: u16, label0: u16) -> Seq<BlockInst> {
        let inst = self.jit_buf.spec_current_inst();
        let op0 = inst.operands[0].spec_as_reg_no_shift()->0;
        let op1 = inst.operands[1].spec_as_reg_no_shift()->0;
        let op2 = inst.operands[2].spec_as_reg_no_shift()->0;
        let read_reg = BlockReg::Any(reg0);
        let value_reg = BlockReg::Any((reg0 + 1) as u16);
        let addr_reg = BlockReg::Any((reg0 + 2) as u16);
        seq![
            BlockInst::Mov { dst: value_reg, src: BlockOperand::Reg(BlockReg::Guest(op1)) },
            BlockInst::Mov { dst: addr_reg, src: BlockOperand::Reg(BlockReg::Guest(op2)) },
        ] + self.read_seq(op0, addr_reg, false, amount, false, (reg0 + 3) as u16, label0)
            + seq![
                BlockInst::Mov { dst: read_reg, src: BlockOperand::Reg(BlockReg::Guest(op0)) },
                BlockInst::Mov { dst: BlockReg::Guest(op1), src: BlockOperand::Reg(value_reg) },
            ]
            + self.write_seq(op1, value_reg, addr_reg, amount, false, (reg0 + 7) as u16, (label0 + 3) as u16)
            + seq![BlockInst::Mov { dst: BlockReg::Guest(op0), src: BlockOperand::Reg(read_reg) }]
    }

    /// Emits a swap of a word, or of a byte, between a register and memory.
    #[verifier::rlimit(40)]
    pub fn emit_swp(&mut self, block_asm: &mut BlockAsm)
        requires
            old(self).transfer_ok(old(block_asm), 10, 5),
            old(self).jit_buf.spec_current_inst().op == Op::Swp || old(self).jit_buf.spec_current_inst().op == Op::Swpb,
            old(self).jit_buf.spec_current_inst().operands[0].spec_as_reg_no_shift() is Some,
            old(self).jit_buf.spec_current_inst().operands[1].spec_as_reg_no_shift() is Some,
            old(self).jit_buf.spec_current_inst().operands[2].spec_as_reg_no_shift() is Some,
        ensures
            *final(self) == *old(self),
            final(block_asm).insts@ == old(block_asm).insts@ + old(self).swp_seq(
                if old(self).jit_buf.spec_current_inst().op == Op::Swp { MemoryAmount::Word } else { MemoryAmount::Byte },
                old(block_asm).live@.len() as u16, old(block_asm).label_count),
            final(block_asm).released_since(old(block_asm)),
            final(block_asm).label_count == old(block_asm).label_count + 5,
    {
        let ghost reg0 = old(block_asm).live@.len() as u16;
        let ghost label0 = old(block_asm).label_count;
        let inst_info = self.jit_buf.current_inst();
        let op0 = match inst_info.operands[0].as_reg_no_shift() { Some(r) => r, None => Reg::R0 };
        let op1 = match inst_info.operands[1].as_reg_no_shift() { Some(r) => r, None => Reg::R0 };
        let op2 = match inst_info.operands[2].as_reg_no_shift() { Some(r) => r, None => Reg::R0 };
        let amount = if inst_info.op == Op::Swp { MemoryAmount::Word } else { MemoryAmount::Byte };
        let read_reg = block_asm.new_reg();
        let value_reg = block_asm.new_reg();
        let addr_reg = block_asm.new_reg();
        block_asm.emit(BlockInst::Mov { dst: value_reg, src: BlockOperand::Reg(BlockReg::Guest(op1)) });
        block_asm.emit(BlockInst::Mov { dst: addr_reg, src: BlockOperand::Reg(BlockReg::Guest(op2)) });
        let ghost s1 = block_asm.insts@;
        self.emit_read(op0, addr_reg, block_asm, false, amount, false);
        let ghost s2 = block_asm.insts@;
        block_asm.emit(BlockInst::Mov { dst: read_reg, src: BlockOperand::Reg(BlockReg::Guest(op0)) });
        block_asm.emit(BlockInst::Mov { dst: BlockReg::Guest(op1), src: BlockOperand::Reg(value_reg) });
        let ghost s3 = block_asm.insts@;
        self.emit_write(op1, value_reg, addr_reg, block_asm, amount, false);
        let ghost s4 = block_asm.insts@;
        block_asm.emit(BlockInst::Mov { dst: BlockReg::Guest(op0), src: BlockOperand::Reg(read_reg) });
        block_asm.free_reg(addr_reg);
        block_asm.free_reg(value_reg);
        block_asm.free_reg(read_reg);
        proof {
            let f = |acc: Seq<BlockInst>, x: Seq<BlockInst>| acc + x;
            let parts = seq![
                seq![
                    BlockInst::Mov { dst: value_reg, src: BlockOperand::Reg(BlockReg::Guest(op1)) },
                    BlockInst::Mov { dst: addr_reg, src: BlockOperand::Reg(BlockReg::Guest(op2)) },
                ],
                self.read_seq(op0, addr_reg, false, amount, false, (reg0 + 3) as u16, label0),
                seq![
                    BlockInst::Mov { dst: read_reg, src: BlockOperand::Reg(BlockReg::Guest(op0)) },
                    BlockInst::Mov { dst: BlockReg::Guest(op1), src: BlockOperand::Reg(value_reg) },
                ],
                self.write_seq(op1, value_reg, addr_reg, amount, false, (reg0 + 7) as u16, (label0 + 3) as u16),
                seq![BlockInst::Mov { dst: BlockReg::Guest(op0), src: BlockOperand::Reg(read_reg) }],
            ];
            assert(s1 =~= old(block_asm).insts@ + parts[0]);
            assert(s3 =~= s2 + parts[2]);
            assert(block_asm.insts@ =~= s4 + parts[4]);
            lemma_concat_chain(old(block_asm).insts@, parts);
            assert(parts.fold_left(Seq::empty(), f) == self.swp_seq(amount, reg0, label0)) by {
                reveal_with_fuel(Seq::fold_left, 6);
            }
            assert(parts.fold_left(old(block_asm).insts@, f) == block_asm.insts@) by {
                reveal_with_fuel(Seq::fold_left, 6);
            }
        }
    }
}

pub proof fn lemma_disjoint_bit(a: u32, b: u32, i: u32)
    requires
        i < 32,
        a & b == 0,
        (a >> i) & 1 == 1,
    ensures
        (b >> i) & 1 != 1,
{
    assert((b >> i) & 1 != 1) by (bit_vector)
        requires i < 32, a & b == 0, (a >> i) & 1 == 1;
}

pub proof fn lemma_subset_bit(a: u32, m: u32, i: u32)
    requires
        i < 32,
        a & !m == 0,
        (a >> i) & 1 == 1,
    ensures
        (m >> i) & 1 == 1,
{
    assert((m >> i) & 1 == 1) by (bit_vector)
        requires i < 32, a & !m == 0, (a >> i) & 1 == 1;
}

pub proof fn lemma_or_keeps_bit(a: u32, b: u32, i: u32)
    requires
        i < 32,
        (a >> i) & 1 == 1,
    ensures
        ((a | b) >> i) & 1 == 1,
{
    assert(((a | b) >> i) & 1 == 1) by (bit_vector)
        requires i < 32, (a >> i) & 1 == 1;
}

/// The general-purpose registers above the highest one of `gp_regs`; all of
/// them when it is empty.
fn free_gp_regs_above(gp_regs: RegReserve) -> (r: RegReserve)
    requires
        gp_regs.wf(),
    ensures
        r.wf(),
        r.0 & !GP_REGS_MASK == 0,
        gp_regs.0 == 0 ==> r.0 == GP_REGS_MASK,
        forall|i: int, j: int| #[trigger] has_bit(r.0, i) && #[trigger] has_bit(gp_regs.0, j) ==> j < i,
{
    let mut shift: u32 = 0;
    if !gp_regs.is_empty() {
        let highest_gp_reg = gp_regs.get_highest_reg();
        shift = highest_gp_reg.index() as u32 + 1;
    }
    let x = u32::MAX << shift;
    let r = RegReserve(x).get_gp_regs();
    proof {
        assert((x & 0x1FFFu32) & !0x1FFFu32 == 0 && (x & 0x1FFFu32) & !0x3FFFFu32 == 0
            && (shift == 0 ==> x & 0x1FFFu32 == 0x1FFFu32)) by (bit_vector)
            requires x == 0xFFFF_FFFFu32 << shift;
        assert forall|i: int, j: int| #[trigger] has_bit(r.0, i) && #[trigger] has_bit(gp_regs.0, j) implies j < i by {
            lemma_shifted_mask_bits(shift, i as u32, j as u32);
        }
    }
    r
}

/// Registers of a mask shifted left by `s` are numbered `s` or above; the
/// empty set has no register.
pub proof fn lemma_shifted_mask_bits(s: u32, i: u32, j: u32)
    requires
        s < 32,
        i < 32,
        j < 32,
    ensures
        (((0xFFFF_FFFFu32 << s) & 0x1FFFu32) >> i) & 1 == 1 ==> i >= s,
        (0u32 >> j) & 1 != 1,
{
    assert(((((0xFFFF_FFFFu32 << s) & 0x1FFFu32) >> i) & 1 == 1 ==> i >= s) && (0u32 >> j) & 1 != 1) by (bit_vector)
        requires s < 32, i < 32, j < 32;
}

/// The registers that the pairs stand in for, as a set.
pub open spec fn guest_mask(s: Seq<(Reg, Reg)>) -> u32
    decreases s.len(),
{
    if s.len() == 0 {
        0
    } else {
        (guest_mask(s.drop_last()) | reg_bit(s.last().0)) as u32
    }
}

/// `gp`, `fixed` and `pairs` split the register list `rlist` for the bulk
/// copy: `gp` holds general-purpose registers of the list that move directly,
/// each pair maps another register of the list to a general-purpose stand-in
/// in `fixed`, and together they cover the list. Each stand-in is numbered
/// above every directly moved register, and no register or stand-in is used
/// twice.
pub open spec fn rlist_assembled(rlist: u32, gp: u32, fixed: u32, pairs: Seq<(Reg, Reg)>) -> bool {
    &&& rlist == gp | guest_mask(pairs)
    &&& gp & !rlist == 0
    &&& gp & !GP_REGS_MASK == 0
    &&& fixed & !GP_REGS_MASK == 0
    &&& forall|k: int| 0 <= k < pairs.len() ==> {
        let (g, f) = #[trigger] pairs[k];
        &&& has_bit(rlist, spec_reg_index(g) as int)
        &&& !has_bit(gp, spec_reg_index(g) as int)
        &&& has_bit(fixed, spec_reg_index(f) as int)
        &&& has_bit(GP_REGS_MASK, spec_reg_index(f) as int)
    }
    &&& fixed & gp == 0
    &&& forall|k: int, j: int|
        #![trigger pairs[k], has_bit(gp, j)]
        0 <= k < pairs.len() && has_bit(gp, j) ==> j < spec_reg_index(pairs[k].1)
    &&& forall|k1: int, k2: int|
        #![trigger pairs[k1], pairs[k2]]
        0 <= k1 < k2 < pairs.len() ==> pairs[k1].0 != pairs[k2].0 && pairs[k1].1 != pairs[k2].1
}

/// One bulk copy between the window at `base` and the guest registers: for a
/// store, each stand-in is filled from its register first; for a load, each
/// register is filled from its stand-in afterwards.
pub open spec fn bulk_seq(write: bool, gp: u32, fixed: u32, pairs: Seq<(Reg, Reg)>, base: BlockReg, base_out: BlockReg,
    write_back: bool, pre: bool, add_to_base: bool) -> Seq<BlockInst> {
    if write {
        pairs.map_values(|p: (Reg, Reg)| fixed_move(p, true))
            + seq![BlockInst::GuestTransferWriteMultiple {
                addr: base, addr_out: base_out, gp_regs: RegReserve(gp), fixed_regs: RegReserve(fixed), write_back, pre, add_to_base,
            }]
    } else {
        seq![BlockInst::GuestTransferReadMultiple {
            addr: base, addr_out: base_out, gp_regs: RegReserve(gp), fixed_regs: RegReserve(fixed), write_back, pre, add_to_base,
        }] + pairs.map_values(|p: (Reg, Reg)| fixed_move(p, false))
    }
}

/// The move that fills a stand-in from its register, or the register from its stand-in.
pub open spec fn fixed_move(p: (Reg, Reg), into_fixed: bool) -> BlockInst {
    if into_fixed {
        BlockInst::Mov { dst: BlockReg::Fixed(p.1), src: BlockOperand::Reg(BlockReg::Guest(p.0)) }
    } else {
        BlockInst::Mov { dst: BlockReg::Guest(p.0), src: BlockOperand::Reg(BlockReg::Fixed(p.1)) }
    }
}

/// `b` is a bulk copy of the register list `rlist`, split as `assemble_rlist` splits it.
pub open spec fn is_bulk(b: Seq<BlockInst>, write: bool, rlist: u32, base: BlockReg, base_out: BlockReg, write_back: bool, pre: bool,
    add_to_base: bool) -> bool {
    exists|gp: u32, fixed: u32, pairs: Seq<(Reg, Reg)>|
        #[trigger] rlist_assembled(rlist, gp, fixed, pairs)
            && b == bulk_seq(write, gp, fixed, pairs, base, base_out, write_back, pre, add_to_base)
}

/// `regs` is the lower half of `rlist`: its registers of lower numbers, as
/// many as the list has minus half of them, rounded down.
pub open spec fn lower_half(rlist: u32, regs: u32) -> bool {
    &&& regs & !rlist == 0
    &&& crate::reg::count_bits(regs, 32) == crate::reg::count_bits(rlist, 32) - crate::reg::count_bits(rlist, 32) / 2
    &&& forall|i: int, j: int| #[trigger] has_bit(regs, i) && #[trigger] has_bit(rlist & !regs, j) ==> i < j
}

/// Register-list sizes from which a block transfer goes in two halves.
pub const RLIST_SPLIT_LEN: u32 = 12;

/// Splits a register list for the bulk-copy primitive: the general-purpose
/// registers that it moves directly, and the others (SP, LR, PC, and any
/// general-purpose register that had to make room), each paired with a free
/// general-purpose register above the directly moved ones that stands in for
/// it during the copy. Returns the directly moved set, the set of stand-ins,
/// and the pairs (register, stand-in).
#[verifier::rlimit(40)]
pub fn assemble_rlist(rlist: RegReserve) -> (r: (RegReserve, RegReserve, Vec<(Reg, Reg)>))
    requires
        rlist.wf(),
        crate::reg::count_bits(rlist.0, 32) <= 13,
    ensures
        rlist_assembled(rlist.0, r.0.0, r.1.0, r.2@),
        rlist.0 == 0 ==> r.0.0 == 0 && r.1.0 == 0 && r.2@.len() == 0,
        r.0.wf(),
        r.1.wf(),
{
    if rlist.is_empty() {
        proof {
            let z = 0u32;
            let a = rlist.0;
            assert(z & !a == 0 && z & !0x1FFFu32 == 0 && z & !0x3FFFFu32 == 0 && (a == 0 ==> a == z | z) && z & z == 0) by (bit_vector)
                requires z == 0;
        }
        return (RegReserve::new(), RegReserve::new(), Vec::new());
    }
    let mut gp_regs = rlist.get_gp_regs();
    proof {
        let a = rlist.0;
        assert(a & 0x1FFFu32 & !a == 0 && a & 0x1FFFu32 & !0x1FFFu32 == 0 && a & 0x1FFFu32 & !0x3FFFFu32 == 0) by (bit_vector);
    }
    let mut free_gp_regs = free_gp_regs_above(gp_regs);
    let mut non_gp_regs = RegReserve(rlist.0 & !gp_regs.0);
    proof {
        let (a, g) = (rlist.0, gp_regs.0);
        assert(a & !g & !a == 0 && (a & !g) & g == 0 && a & !g & !0x3FFFFu32 == 0 && g | (a & !g) == a) by (bit_vector)
            requires a & !0x3FFFFu32 == 0, g == a & 0x1FFFu32;
    }
    while free_gp_regs.len() < non_gp_regs.len() && !gp_regs.is_empty()
        invariant
            rlist.wf(),
            gp_regs.wf(),
            non_gp_regs.wf(),
            free_gp_regs.0 & !GP_REGS_MASK == 0,
            free_gp_regs.wf(),
            gp_regs.0 & !rlist.0 == 0,
            gp_regs.0 & !GP_REGS_MASK == 0,
            non_gp_regs.0 & !rlist.0 == 0,
            non_gp_regs.0 & gp_regs.0 == 0,
            gp_regs.0 | non_gp_regs.0 == rlist.0,
            gp_regs.0 == 0 ==> free_gp_regs.0 == GP_REGS_MASK,
            crate::reg::count_bits(rlist.0, 32) <= 13,
            forall|i: int, j: int| #[trigger] has_bit(free_gp_regs.0, i) && #[trigger] has_bit(gp_regs.0, j) ==> j < i,
        decreases gp_regs.0,
    {
        let highest_gp_reg = gp_regs.get_highest_reg();
        let ghost (g0, n0) = (gp_regs.0, non_gp_regs.0);
        gp_regs = gp_regs.remove_reg(highest_gp_reg);
        non_gp_regs = non_gp_regs.add_reg(highest_gp_reg);
        proof {
            let i = spec_reg_index(highest_gp_reg) as u32;
            let a = rlist.0;
            crate::reg::lemma_clear_bit_smaller(g0, i);
            assert(i < 18);
            let g1 = g0 & !(1u32 << i);
            let n1 = n0 | (1u32 << i);
            assert(g1 & !a == 0 && g1 & !0x1FFFu32 == 0 && g1 & !0x3FFFFu32 == 0) by (bit_vector)
                requires g1 == g0 & !(1u32 << i), g0 & !a == 0, g0 & !0x1FFFu32 == 0;
            assert(n1 & !a == 0 && n1 & g1 == 0 && n1 & !0x3FFFFu32 == 0 && g1 | n1 == a) by (bit_vector)
                requires n1 == n0 | (1u32 << i), g1 == g0 & !(1u32 << i), i < 18, n0 & !a == 0, n0 & g0 == 0,
                    (g0 >> i) & 1 == 1, g0 & !a == 0, a & !0x3FFFFu32 == 0, g0 | n0 == a;
        }
        free_gp_regs = free_gp_regs_above(gp_regs);
    }
    let mut non_gp_regs_mappings: Vec<(Reg, Reg)> = Vec::new();
    let mut fixed_regs = RegReserve::new();
    let ghost mut mapped: u32 = 0;
    proof {
        let z = fixed_regs.0;
        let (g, n, a) = (gp_regs.0, non_gp_regs.0, rlist.0);
        assert(z & !0x1FFFu32 == 0 && z & !0x3FFFFu32 == 0 && (g | n == a ==> g | n | z == a) && z & g == 0) by (bit_vector)
            requires z == 0;
        crate::reg::lemma_count_subset(rlist.0, non_gp_regs.0, 32);
        crate::reg::lemma_gp_mask_count();
    }
    while !free_gp_regs.is_empty() && !non_gp_regs.is_empty()
        invariant
            rlist.wf(),
            gp_regs.wf(),
            non_gp_regs.wf(),
            fixed_regs.wf(),
            free_gp_regs.wf(),
            free_gp_regs.0 & !GP_REGS_MASK == 0,
            fixed_regs.0 & !GP_REGS_MASK == 0,
            gp_regs.0 & !rlist.0 == 0,
            gp_regs.0 & !GP_REGS_MASK == 0,
            non_gp_regs.0 & !rlist.0 == 0,
            non_gp_regs.0 & gp_regs.0 == 0,
            forall|k: int| 0 <= k < non_gp_regs_mappings@.len() ==> {
                let (g, f) = #[trigger] non_gp_regs_mappings@[k];
                &&& has_bit(rlist.0, spec_reg_index(g) as int)
                &&& !has_bit(gp_regs.0, spec_reg_index(g) as int)
                &&& has_bit(fixed_regs.0, spec_reg_index(f) as int)
                &&& has_bit(GP_REGS_MASK, spec_reg_index(f) as int)
            },
            mapped == guest_mask(non_gp_regs_mappings@),
            gp_regs.0 | non_gp_regs.0 | mapped == rlist.0,
            crate::reg::count_bits(free_gp_regs.0, 32) >= crate::reg::count_bits(non_gp_regs.0, 32),
            forall|i: int, j: int| #[trigger] has_bit(free_gp_regs.0, i) && #[trigger] has_bit(gp_regs.0, j) ==> j < i,
            fixed_regs.0 & gp_regs.0 == 0,
            forall|k: int, j: int|
                #![trigger non_gp_regs_mappings@[k], has_bit(gp_regs.0, j)]
                0 <= k < non_gp_regs_mappings@.len() && has_bit(gp_regs.0, j) ==> j < spec_reg_index(non_gp_regs_mappings@[k].1),
            forall|k: int| 0 <= k < non_gp_regs_mappings@.len() ==>
                !has_bit(free_gp_regs.0, spec_reg_index((#[trigger] non_gp_regs_mappings@[k]).1) as int)
                && !has_bit(non_gp_regs.0, spec_reg_index(non_gp_regs_mappings@[k].0) as int),
            forall|k1: int, k2: int|
                #![trigger non_gp_regs_mappings@[k1], non_gp_regs_mappings@[k2]]
                0 <= k1 < k2 < non_gp_regs_mappings@.len() ==> non_gp_regs_mappings@[k1].0 != non_gp_regs_mappings@[k2].0
                    && non_gp_regs_mappings@[k1].1 != non_gp_regs_mappings@[k2].1,
        decreases non_gp_regs.0,
    {
        let ghost (f0, n0, x0) = (free_gp_regs.0, non_gp_regs.0, fixed_regs.0);
        let fixed_reg = match free_gp_regs.pop() { Some(r) => r, None => Reg::R0 };
        fixed_regs = fixed_regs.add_reg(fixed_reg);
        let guest = match non_gp_regs.pop() { Some(r) => r, None => Reg::R0 };
        proof {
            let fi = spec_reg_index(fixed_reg) as u32;
            let gi = spec_reg_index(guest) as u32;
            let a = rlist.0;
            let g = gp_regs.0;
            lemma_subset_bit(f0, GP_REGS_MASK, fi);
            lemma_subset_bit(n0, a, gi);
            lemma_disjoint_bit(n0, g, gi);
            if has_bit(g, fi as int) {
                assert(has_bit(f0, fi as int));
            }
            assert(!has_bit(g, fi as int));
            let x1 = x0 | (1u32 << fi);
            assert((x1 >> fi) & 1 == 1 && x1 & !0x1FFFu32 == 0 && x1 & !0x3FFFFu32 == 0 && x1 & g == 0) by (bit_vector)
                requires x1 == x0 | (1u32 << fi), fi < 32, x0 & !0x1FFFu32 == 0, (0x1FFFu32 >> fi) & 1 == 1,
                    x0 & g == 0, (g >> fi) & 1 != 1;
            let f1 = free_gp_regs.0;
            assert(f1 == f0 & !(1u32 << fi));
            assert forall|i: int, j: int| #[trigger] has_bit(f1, i) && #[trigger] has_bit(g, j) implies j < i by {
                crate::reg::lemma_bit_clear(f0, fi, i as u32);
                assert(has_bit(f0, i));
            }
            assert forall|k: int| 0 <= k < non_gp_regs_mappings@.len() implies
                !has_bit(f1, spec_reg_index((#[trigger] non_gp_regs_mappings@[k]).1) as int)
                && !has_bit(non_gp_regs.0, spec_reg_index(non_gp_regs_mappings@[k].0) as int)
                && non_gp_regs_mappings@[k].0 != guest && non_gp_regs_mappings@[k].1 != fixed_reg by {
                let fk = spec_reg_index(non_gp_regs_mappings@[k].1) as u32;
                let gk = spec_reg_index(non_gp_regs_mappings@[k].0) as u32;
                crate::reg::lemma_bit_clear(f0, fi, fk);
                crate::reg::lemma_bit_clear(n0, gi, gk);
            }
            crate::reg::lemma_bit_clear(f0, fi, fi);
            crate::reg::lemma_bit_clear(n0, gi, gi);
            let n1 = n0 & !(1u32 << gi);
            assert(n1 & !a == 0 && n1 & g == 0) by (bit_vector)
                requires n1 == n0 & !(1u32 << gi), n0 & !a == 0, n0 & g == 0;
            let f1 = free_gp_regs.0;
            assert(f1 & !0x1FFFu32 == 0) by (bit_vector)
                requires f1 == f0 & !(1u32 << fi), f0 & !0x1FFFu32 == 0;
            assert forall|k: int| 0 <= k < non_gp_regs_mappings@.len() implies
                has_bit(x1, spec_reg_index((#[trigger] non_gp_regs_mappings@[k]).1) as int) by {
                let fk = spec_reg_index(non_gp_regs_mappings@[k].1) as u32;
                lemma_or_keeps_bit(x0, 1u32 << fi, fk);
            }
        }
        proof {
            let gi = spec_reg_index(guest) as u32;
            let fi = spec_reg_index(fixed_reg) as u32;
            crate::reg::lemma_move_bit(gp_regs.0, n0, mapped, rlist.0, gi);
            crate::reg::lemma_count_clear(f0, fi, 32);
            crate::reg::lemma_count_clear(n0, gi, 32);
        }
        let ghost before = non_gp_regs_mappings@;
        non_gp_regs_mappings.push((guest, fixed_reg));
        proof {
            mapped = (mapped | reg_bit(guest)) as u32;
            assert(non_gp_regs_mappings@.drop_last() =~= before);
            assert(non_gp_regs_mappings@.last() == (guest, fixed_reg));
            let ms = non_gp_regs_mappings@;
            assert forall|k1: int, k2: int|
                #![trigger ms[k1], ms[k2]]
                0 <= k1 < k2 < ms.len() implies ms[k1].0 != ms[k2].0 && ms[k1].1 != ms[k2].1 by {
                if k2 < ms.len() - 1 {
                    assert(ms[k1] == before[k1] && ms[k2] == before[k2]);
                } else {
                    assert(ms[k1] == before[k1]);
                }
            }
        }
    }
    proof {
        if free_gp_regs.0 == 0 {
            crate::reg::lemma_count_of_zero(32);
            crate::reg::lemma_count_zero(non_gp_regs.0);
        }
        crate::reg::lemma_union_drop_empty(gp_regs.0, non_gp_regs.0, mapped, rlist.0);
    }
    (gp_regs, fixed_regs, non_gp_regs_mappings)
}

/// The slow-path arguments of a block transfer packed into one word, in the
/// handler's fields from the lowest bit up: the register list (16 bits), its
/// length (4 bits), the base register (4 bits), the indexing flag and the
/// user-mode flag. The length field keeps the length modulo 16, so a list of
/// all sixteen registers has length 0 there and the handler counts the list.
pub open spec fn spec_multiple_params(rlist: u32, len: u32, op0: u32, pre: bool, user: bool) -> u32 {
    ((rlist & 0xFFFF) | ((len % 16) << 16u32) | (op0 << 20u32) | (if pre { 0x100_0000u32 } else { 0u32 })
        | (if user { 0x200_0000u32 } else { 0u32 })) as u32
}

pub fn multiple_params(rlist: u32, len: u32, op0: u32, pre: bool, user: bool) -> (r: u32)
    requires
        op0 <= 15,
    ensures
        r == spec_multiple_params(rlist, len, op0, pre, user),
{
    (rlist & 0xFFFF) | ((len % 16) << 16u32) | (op0 << 20u32) | (if pre { 0x100_0000u32 } else { 0u32 })
        | (if user { 0x200_0000u32 } else { 0u32 })
}

/// `n` is `o` with instructions appended.
pub open spec fn extends(n: Seq<BlockInst>, o: Seq<BlockInst>) -> bool {
    n.len() >= o.len() && n.subrange(0, o.len() as int) == o
}

pub proof fn lemma_extends_refl(a: Seq<BlockInst>)
    ensures
        extends(a, a),
{
    assert(a.subrange(0, a.len() as int) =~= a);
}

pub proof fn lemma_extends_trans(a: Seq<BlockInst>, b: Seq<BlockInst>, c: Seq<BlockInst>)
    requires
        extends(b, a),
        extends(c, b),
    ensures
        extends(c, a),
{
    assert(c.subrange(0, a.len() as int) =~= b.subrange(0, a.len() as int));
}

/// One instruction per register of `bits`, in increasing order.
pub open spec fn restore_mask_seq(bits: u32) -> Seq<BlockInst> {
    regs_below(bits, 18).map_values(|r: Reg| BlockInst::RestoreReg(r))
}

pub open spec fn dirty_mask_seq(bits: u32, dirty: bool) -> Seq<BlockInst> {
    regs_below(bits, 18).map_values(|r: Reg| BlockInst::MarkRegDirty { reg: r, dirty })
}

fn emit_restore_mask(block_asm: &mut BlockAsm, bits: u32)
    ensures
        final(block_asm).insts@ == old(block_asm).insts@ + restore_mask_seq(bits),
        final(block_asm).live == old(block_asm).live,
        final(block_asm).label_count == old(block_asm).label_count,
{
    let mut i: u32 = 0;
    while i < 18
        invariant
            i <= 18,
            block_asm.insts@ == old(block_asm).insts@ + regs_below(bits, i as int).map_values(|r: Reg| BlockInst::RestoreReg(r)),
            block_asm.live == old(block_asm).live,
            block_asm.label_count == old(block_asm).label_count,
        decreases 18 - i,
    {
        if (bits >> i) & 1 == 1 {
            block_asm.emit(BlockInst::RestoreReg(Reg::from_index(i as u8)));
        }
        proof {
            assert(regs_below(bits, i + 1).map_values(|r: Reg| BlockInst::RestoreReg(r)) =~= regs_below(bits, i as int).map_values(|r: Reg| BlockInst::RestoreReg(r))
                + if has_bit(bits, i as int) { seq![BlockInst::RestoreReg(spec_reg_from_index(i as u8))] } else { Seq::empty() });
            assert(block_asm.insts@ =~= old(block_asm).insts@ + regs_below(bits, i + 1).map_values(|r: Reg| BlockInst::RestoreReg(r)));
        }
        i = i + 1;
    }
}

fn emit_dirty_mask(block_asm: &mut BlockAsm, bits: u32, dirty: bool)
    ensures
        final(block_asm).insts@ == old(block_asm).insts@ + dirty_mask_seq(bits, dirty),
        final(block_asm).live == old(block_asm).live,
        final(block_asm).label_count == old(block_asm).label_count,
{
    let mut i: u32 = 0;
    while i < 18
        invariant
            i <= 18,
            block_asm.insts@ == old(block_asm).insts@ + regs_below(bits, i as int).map_values(|r: Reg| BlockInst::MarkRegDirty { reg: r, dirty }),
            block_asm.live == old(block_asm).live,
            block_asm.label_count == old(block_asm).label_count,
        decreases 18 - i,
    {
        if (bits >> i) & 1 == 1 {
            block_asm.emit(BlockInst::MarkRegDirty { reg: Reg::from_index(i as u8), dirty });
        }
        proof {
            assert(regs_below(bits, i + 1).map_values(|r: Reg| BlockInst::MarkRegDirty { reg: r, dirty }) =~= regs_below(bits, i as int).map_values(|r: Reg| BlockInst::MarkRegDirty { reg: r, dirty })
                + if has_bit(bits, i as int) { seq![BlockInst::MarkRegDirty { reg: spec_reg_from_index(i as u8), dirty }] } else { Seq::empty() });
            assert(block_asm.insts@ =~= old(block_asm).insts@ + regs_below(bits, i + 1).map_values(|r: Reg| BlockInst::MarkRegDirty { reg: r, dirty }));
        }
        i = i + 1;
    }
}

impl JitAsm {
    /// The register list of the current block transfer: the encoding's list,
    /// plus LR for a push and PC for a pop.
    pub open spec fn multiple_rlist(&self, thumb: bool) -> u32 {
        let inst = self.jit_buf.spec_current_inst();
        let base = inst.opcode & if thumb { 0xFFu32 } else { 0xFFFFu32 };
        if inst.op == Op::PushLrT {
            base | reg_bit(Reg::LR)
        } else if inst.op == Op::PopPcT {
            base | reg_bit(Reg::PC)
        } else {
            base
        }
    }

    /// The fast path serves a block transfer unless it is a user-mode one, has
    /// no register, or writes back a base register that it also transfers.
    pub open spec fn use_fast_mem(&self, rlist: u32) -> bool {
        let inst = self.jit_buf.spec_current_inst();
        let m = inst.op.spec_multiple()->0;
        let op0 = inst.operands[0].spec_as_reg_no_shift()->0;
        !m.user && rlist != 0 && (!m.write_back || !has_bit(rlist, spec_reg_index(op0) as int))
    }

    /// The slow path of a block transfer, and what follows the fast path.
    pub open spec fn multiple_slow_seq(&self, thumb: bool, label0: u16) -> Seq<BlockInst> {
        let inst = self.jit_buf.spec_current_inst();
        let m = inst.op.spec_multiple()->0;
        let op0 = inst.operands[0].spec_as_reg_no_shift()->0;
        let write = inst.op.spec_mem_is_write();
        let rlist = self.multiple_rlist(thumb);
        let fast = self.use_fast_mem(rlist);
        let slow = label0;
        let dirty = (label0 + 1) as u16;
        let cont = (label0 + 2) as u16;
        let pre = if m.decrement { !m.pre } else { m.pre };
        let restore = ((if m.write_back { reg_bit(op0) } else { 0u32 }) | (if !write { rlist } else { 0u32 })) as u32;
        (if fast { seq![BlockInst::Label { label: slow, unlikely: true }] } else { Seq::empty() })
            + seq![
                BlockInst::SaveContext,
                BlockInst::Call3 {
                    func: CallTarget::MemMultipleHandler { cpu: self.cpu, write, write_back: m.write_back, decrement: m.decrement },
                    a0: BlockOperand::Imm(spec_multiple_params(rlist, crate::reg::count_bits(rlist, 32) as u32, spec_reg_index(op0) as u32, pre, m.user)),
                    a1: BlockOperand::Imm(tagged_pc(self.jit_buf.current_pc, thumb)),
                    a2: BlockOperand::Imm(self.jit_buf.spec_current_cycles() as u32),
                },
            ]
            + restore_mask_seq(restore)
            + seq![BlockInst::RestoreReg(Reg::CPSR)]
            + if fast {
                self.slow_tail_seq(if write { cont } else { dirty })
                    + (if !write { seq![BlockInst::Label { label: dirty, unlikely: false }] + dirty_mask_seq(rlist, true) } else { Seq::empty() })
                    + seq![BlockInst::Label { label: cont, unlikely: false }]
            } else {
                Seq::empty()
            }
    }

    /// The fast path of a block transfer around its bulk copies `bulk`: the
    /// guest base address masked to the window and offset by its base pointer,
    /// the copies, the base register advanced by the distance the copies
    /// moved, and the exits (dirty marks first for a load).
    pub open spec fn multiple_fast_seq(&self, rlist: u32, bulk: Seq<BlockInst>, reg0: u16, label0: u16) -> Seq<BlockInst> {
        let op0 = self.jit_buf.spec_current_inst().operands[0].spec_as_reg_no_shift()->0;
        let base = BlockReg::Any(reg0);
        seq![
            BlockInst::Branch { label: label0, cond: Cond::NV },
            BlockInst::Bic { dst: base, lhs: BlockReg::Guest(op0), rhs: BlockOperand::Imm(0xF000_0003) },
            BlockInst::Add { dst: base, lhs: base, rhs: BlockOperand::Imm(self.base_tcm_ptr) },
        ] + bulk + self.multiple_exit_seq(rlist, reg0, label0)
    }

    /// `bulk` copies the register list `rlist` of the current block transfer
    /// between the window at virtual register `reg0` and the guest registers:
    /// in one bulk copy, or, for a list of `RLIST_SPLIT_LEN` registers or more,
    /// in two: its lower half and the rest, in the order of the addressing.
    pub open spec fn multiple_bulk_ok(&self, rlist: u32, bulk: Seq<BlockInst>, reg0: u16) -> bool {
        let inst = self.jit_buf.spec_current_inst();
        let m = inst.op.spec_multiple()->0;
        let write = inst.op.spec_mem_is_write();
        if crate::reg::count_bits(rlist, 32) < RLIST_SPLIT_LEN {
            is_bulk(bulk, write, rlist, BlockReg::Any(reg0), BlockReg::Any((reg0 + 1) as u16), m.write_back, m.pre, !m.decrement)
        } else {
            exists|regs: u32, k: int|
                lower_half(rlist, regs) && 0 <= k <= bulk.len()
                    && #[trigger] self.split_bulk_ok(rlist, regs, bulk.subrange(0, k), bulk.subrange(k, bulk.len() as int), reg0)
        }
    }

    /// The two bulk copies of a split register list: the rest first when the
    /// transfer descends, the lower half first when it ascends; a half without
    /// general-purpose registers is copied with the other.
    pub open spec fn split_bulk_ok(&self, rlist: u32, regs: u32, b1: Seq<BlockInst>, b2: Seq<BlockInst>, reg0: u16) -> bool {
        let inst = self.jit_buf.spec_current_inst();
        let m = inst.op.spec_multiple()->0;
        let write = inst.op.spec_mem_is_write();
        let base = BlockReg::Any(reg0);
        let out = BlockReg::Any((reg0 + 1) as u16);
        let rest = rlist & !regs;
        if m.decrement {
            &&& is_bulk(b1, write, rest, base, out, true, m.pre, false)
            &&& if regs & GP_REGS_MASK != 0 { is_bulk(b2, write, regs, out, out, m.write_back, m.pre, false) } else { b2.len() == 0 }
        } else {
            &&& if regs & GP_REGS_MASK != 0 { is_bulk(b1, write, regs, base, out, true, m.pre, true) } else { b1.len() == 0 }
            &&& is_bulk(b2, write, rest, out, out, m.write_back, m.pre, true)
        }
    }

    /// The end of the fast path of a block transfer: base write-back, dirty
    /// marks for a load, and the exits.
    pub open spec fn multiple_exit_seq(&self, rlist: u32, reg0: u16, label0: u16) -> Seq<BlockInst> {
        let inst = self.jit_buf.spec_current_inst();
        let m = inst.op.spec_multiple()->0;
        let op0 = inst.operands[0].spec_as_reg_no_shift()->0;
        let write = inst.op.spec_mem_is_write();
        let base = BlockReg::Any(reg0);
        let base_out = BlockReg::Any((reg0 + 1) as u16);
        (if m.write_back {
            seq![
                BlockInst::Sub { dst: base, lhs: base_out, rhs: BlockOperand::Reg(base) },
                if write {
                    BlockInst::Add { dst: BlockReg::Guest(op0), lhs: BlockReg::Guest(op0), rhs: BlockOperand::Reg(base) }
                } else {
                    BlockInst::Add { dst: BlockReg::Guest(op0), lhs: base, rhs: BlockOperand::Reg(BlockReg::Guest(op0)) }
                },
            ]
        } else {
            Seq::empty()
        }) + (if write {
            seq![BlockInst::BranchFallthrough { label: (label0 + 2) as u16, cond: Cond::AL }]
        } else {
            dirty_mask_seq(rlist, false) + seq![BlockInst::BranchFallthrough { label: (label0 + 1) as u16, cond: Cond::AL }]
        }) + seq![BlockInst::Branch { label: label0, cond: Cond::AL }]
    }

    #[verifier::rlimit(40)]
    fn emit_multiple_exit(&self, block_asm: &mut BlockAsm, rlist: RegReserve, base_reg: BlockReg, base_reg_out: BlockReg, slow_label: u16,
        Ghost(reg0): Ghost<u16>)
        requires
            self.jit_buf.wf(),
            self.jit_buf.spec_current_inst().op.spec_multiple() is Some,
            self.jit_buf.spec_current_inst().operands[0].spec_as_reg_no_shift() is Some,
            base_reg == BlockReg::Any(reg0),
            base_reg_out == BlockReg::Any((reg0 + 1) as u16),
            slow_label as int + 2 <= u16::MAX,
        ensures
            final(block_asm).insts@ == old(block_asm).insts@ + self.multiple_exit_seq(rlist.0, reg0, slow_label),
            final(block_asm).live == old(block_asm).live,
            final(block_asm).label_count == old(block_asm).label_count,
    {
        let inst_info = self.jit_buf.current_inst();
        let m = match inst_info.op.multiple() {
            Some(m) => m,
            None => crate::inst_info::MultipleTransfer { pre: false, write_back: false, decrement: false, user: false },
        };
        let write = inst_info.op.mem_is_write();
        let op0 = match inst_info.operands[0].as_reg_no_shift() { Some(r) => r, None => Reg::R0 };
        let ghost s0 = block_asm.insts@;
        if m.write_back {
            block_asm.emit(BlockInst::Sub { dst: base_reg, lhs: base_reg_out, rhs: BlockOperand::Reg(base_reg) });
            if write {
                block_asm.emit(BlockInst::Add { dst: BlockReg::Guest(op0), lhs: BlockReg::Guest(op0), rhs: BlockOperand::Reg(base_reg) });
            } else {
                block_asm.emit(BlockInst::Add { dst: BlockReg::Guest(op0), lhs: base_reg, rhs: BlockOperand::Reg(BlockReg::Guest(op0)) });
            }
        }
        let ghost s1 = block_asm.insts@;
        if write {
            block_asm.emit(BlockInst::BranchFallthrough { label: slow_label + 2, cond: Cond::AL });
        } else {
            emit_dirty_mask(block_asm, rlist.0, false);
            block_asm.emit(BlockInst::BranchFallthrough { label: slow_label + 1, cond: Cond::AL });
        }
        let ghost s2 = block_asm.insts@;
        block_asm.emit(BlockInst::Branch { label: slow_label, cond: Cond::AL });
        proof {
            let a = if m.write_back {
                seq![
                    BlockInst::Sub { dst: base_reg, lhs: base_reg_out, rhs: BlockOperand::Reg(base_reg) },
                    if write {
                        BlockInst::Add { dst: BlockReg::Guest(op0), lhs: BlockReg::Guest(op0), rhs: BlockOperand::Reg(base_reg) }
                    } else {
                        BlockInst::Add { dst: BlockReg::Guest(op0), lhs: base_reg, rhs: BlockOperand::Reg(BlockReg::Guest(op0)) }
                    },
                ]
            } else {
                Seq::empty()
            };
            let b = if write {
                seq![BlockInst::BranchFallthrough { label: (slow_label + 2) as u16, cond: Cond::AL }]
            } else {
                dirty_mask_seq(rlist.0, false) + seq![BlockInst::BranchFallthrough { label: (slow_label + 1) as u16, cond: Cond::AL }]
            };
            assert(s1 =~= s0 + a);
            assert(s2 =~= s1 + b);
            assert(block_asm.insts@ =~= s0 + (a + b + seq![BlockInst::Branch { label: slow_label, cond: Cond::AL }]));
        }
    }

    fn emit_fixed_moves(block_asm: &mut BlockAsm, mappings: &Vec<(Reg, Reg)>, into_fixed: bool)
        ensures
            final(block_asm).insts@ == old(block_asm).insts@ + mappings@.map_values(|p: (Reg, Reg)| fixed_move(p, into_fixed)),
            final(block_asm).live == old(block_asm).live,
            final(block_asm).label_count == old(block_asm).label_count,
    {
        let mut k: usize = 0;
        proof {
            assert(block_asm.insts@ =~= old(block_asm).insts@ + mappings@.subrange(0, 0).map_values(|p: (Reg, Reg)| fixed_move(p, into_fixed)));
        }
        while k < mappings.len()
            invariant
                k <= mappings@.len(),
                block_asm.insts@ == old(block_asm).insts@ + mappings@.subrange(0, k as int).map_values(|p: (Reg, Reg)| fixed_move(p, into_fixed)),
                block_asm.live == old(block_asm).live,
                block_asm.label_count == old(block_asm).label_count,
            decreases mappings@.len() - k,
        {
            let (guest_reg, fixed_reg) = mappings[k];
            if into_fixed {
                block_asm.emit(BlockInst::Mov { dst: BlockReg::Fixed(fixed_reg), src: BlockOperand::Reg(BlockReg::Guest(guest_reg)) });
            } else {
                block_asm.emit(BlockInst::Mov { dst: BlockReg::Guest(guest_reg), src: BlockOperand::Reg(BlockReg::Fixed(fixed_reg)) });
            }
            proof {
                assert(mappings@.subrange(0, k + 1).map_values(|p: (Reg, Reg)| fixed_move(p, into_fixed))
                    =~= mappings@.subrange(0, k as int).map_values(|p: (Reg, Reg)| fixed_move(p, into_fixed)).push(fixed_move(mappings@[k as int], into_fixed)));
                assert(block_asm.insts@ =~= old(block_asm).insts@ + mappings@.subrange(0, k + 1).map_values(|p: (Reg, Reg)| fixed_move(p, into_fixed)));
            }
            k = k + 1;
        }
        proof {
            assert(mappings@.subrange(0, mappings@.len() as int) =~= mappings@);
        }
    }

    /// One bulk copy of `rlist` between `base` and the guest registers, with
    /// the stand-ins filled before a store or emptied after a load.
    fn emit_bulk(block_asm: &mut BlockAsm, rlist: RegReserve, write: bool, base: BlockReg, base_out: BlockReg, write_back: bool, pre: bool, add_to_base: bool)
        requires
            rlist.wf(),
            crate::reg::count_bits(rlist.0, 32) <= 13,
        ensures
            extends(final(block_asm).insts@, old(block_asm).insts@),
            is_bulk(final(block_asm).insts@.subrange(old(block_asm).insts@.len() as int, final(block_asm).insts@.len() as int),
                write, rlist.0, base, base_out, write_back, pre, add_to_base),
            final(block_asm).live == old(block_asm).live,
            final(block_asm).label_count == old(block_asm).label_count,
    {
        let (gp_regs, fixed_regs, mappings) = assemble_rlist(rlist);
        let ghost s0 = block_asm.insts@;
        if write {
            Self::emit_fixed_moves(block_asm, &mappings, true);
            block_asm.emit(BlockInst::GuestTransferWriteMultiple { addr: base, addr_out: base_out, gp_regs, fixed_regs, write_back, pre, add_to_base });
        } else {
            block_asm.emit(BlockInst::GuestTransferReadMultiple { addr: base, addr_out: base_out, gp_regs, fixed_regs, write_back, pre, add_to_base });
            Self::emit_fixed_moves(block_asm, &mappings, false);
        }
        proof {
            let b = bulk_seq(write, gp_regs.0, fixed_regs.0, mappings@, base, base_out, write_back, pre, add_to_base);
            assert(block_asm.insts@ =~= s0 + b);
            assert(block_asm.insts@.subrange(0, s0.len() as int) =~= s0);
            assert(block_asm.insts@.subrange(s0.len() as int, block_asm.insts@.len() as int) =~= b);
            assert(rlist_assembled(rlist.0, gp_regs.0, fixed_regs.0, mappings@));
        }
    }

    #[verifier::rlimit(40)]
    fn emit_multiple_fast(&self, block_asm: &mut BlockAsm, rlist: RegReserve, thumb: bool, slow_label: u16, dirty_label: u16, continue_label: u16,
        Ghost(reg0): Ghost<u16>)
        requires
            old(block_asm).has_room(2, 0),
            reg0 == old(block_asm).live@.len(),
            dirty_label == slow_label + 1,
            continue_label == slow_label + 2,
            !self.jit_buf.spec_current_inst().op.spec_multiple()->0.user,
            rlist.wf(),
            self.jit_buf.wf(),
            self.jit_buf.spec_current_inst().op.spec_multiple() is Some,
            self.jit_buf.spec_current_inst().operands[0].spec_as_reg_no_shift() is Some,
        ensures
            final(block_asm).insts@.len() > old(block_asm).insts@.len(),
            final(block_asm).insts@.subrange(0, old(block_asm).insts@.len() as int) == old(block_asm).insts@,
            final(block_asm).insts@[old(block_asm).insts@.len() as int] == (BlockInst::Branch { label: slow_label, cond: Cond::NV }),
            exists|bulk: Seq<BlockInst>| self.multiple_bulk_ok(rlist.0, bulk, reg0)
                && final(block_asm).insts@ == old(block_asm).insts@ + #[trigger] self.multiple_fast_seq(rlist.0, bulk, reg0, slow_label),
            final(block_asm).released_since(old(block_asm)),
            final(block_asm).live@.len() == old(block_asm).live@.len() + 2,
            final(block_asm).label_count == old(block_asm).label_count,
    {
        proof {
            crate::reg::lemma_count_wf(rlist.0);
        }
        let inst_info = self.jit_buf.current_inst();
        let m = match inst_info.op.multiple() {
            Some(m) => m,
            None => crate::inst_info::MultipleTransfer { pre: false, write_back: false, decrement: false, user: false },
        };
        let write = inst_info.op.mem_is_write();
        let op0 = match inst_info.operands[0].as_reg_no_shift() { Some(r) => r, None => Reg::R0 };
        let needs_rlist_split = rlist.len() >= RLIST_SPLIT_LEN && !m.user;
        let mut regs = rlist;
        proof {
            let a = rlist.0;
            assert(a & !a == 0) by (bit_vector);
            assert forall|i: int, j: int| #[trigger] has_bit(a, i) && #[trigger] has_bit(a & !a, j) implies i < j by {
                crate::reg::lemma_bit_and_not(a, a, j as u32);
            }
        }
        if needs_rlist_split {
            let half = regs.len() / 2;
            let mut n: u32 = 0;
            while n < half
                invariant
                    regs.wf(),
                    regs.0 & !rlist.0 == 0,
                    n <= half,
                    half == crate::reg::count_bits(rlist.0, 32) / 2,
                    crate::reg::count_bits(regs.0, 32) + n == crate::reg::count_bits(rlist.0, 32),
                    forall|i: int, j: int| #[trigger] has_bit(regs.0, i) && #[trigger] has_bit(rlist.0 & !regs.0, j) ==> i < j,
                decreases half - n,
            {
                let ghost b = regs.0;
                proof {
                    if b == 0 {
                        crate::reg::lemma_count_of_zero(32);
                    }
                }
                let popped = regs.pop_rev();
                proof {
                    let i = spec_reg_index(popped->0) as u32;
                    crate::reg::lemma_count_clear(b, i, 32);
                }
                proof {
                    let c = regs.0;
                    let a = rlist.0;
                    assert(c & !a == 0) by (bit_vector)
                        requires b & !a == 0, c == b || exists|x: u32| c == b & !x;
                    let h = spec_reg_index(popped->0) as u32;
                    assert forall|i: int, j: int| #[trigger] has_bit(c, i) && #[trigger] has_bit(a & !c, j) implies i < j by {
                        crate::reg::lemma_bit_clear(b, h, i as u32);
                        crate::reg::lemma_bit_and_not(a, c, j as u32);
                        crate::reg::lemma_bit_clear(b, h, j as u32);
                        assert(has_bit(b, i) && i != h as int);
                        if j == h as int {
                            if i > j {
                                assert(!has_bit(b, i));
                            }
                        } else {
                            crate::reg::lemma_bit_and_not(a, b, j as u32);
                            assert(has_bit(a & !b, j));
                        }
                    }
                }
                n = n + 1;
            }
        }
        let rest = RegReserve(rlist.0 & !regs.0);
        proof {
            crate::reg::lemma_count_diff(rlist.0, regs.0, 32);
            let (a, b) = (rlist.0, regs.0);
            assert((a & !b) & !0x3FFFFu32 == 0) by (bit_vector)
                requires a & !0x3FFFFu32 == 0;
        }
        let ghost start = block_asm.insts@;
        block_asm.emit(BlockInst::Branch { label: slow_label, cond: Cond::NV });
        let base_reg = block_asm.new_reg();
        let base_reg_out = block_asm.new_reg();
        block_asm.emit(BlockInst::Bic { dst: base_reg, lhs: BlockReg::Guest(op0), rhs: BlockOperand::Imm(0xF000_0003) });
        block_asm.emit(BlockInst::Add { dst: base_reg, lhs: base_reg, rhs: BlockOperand::Imm(self.base_tcm_ptr) });
        let ghost s1 = block_asm.insts@;
        proof {
            assert(s1.subrange(0, start.len() as int + 1) =~= start.push(BlockInst::Branch { label: slow_label, cond: Cond::NV }));
            assert(s1.subrange(0, start.len() as int) =~= start);
        }
        let ghost mut mid = s1;
        if needs_rlist_split {
            if m.decrement {
                let ghost t0 = block_asm.insts@;
                proof { lemma_extends_refl(t0); }
                Self::emit_bulk(block_asm, rest, write, base_reg, base_reg_out, true, m.pre, false);
                let ghost t1 = block_asm.insts@;
                proof { lemma_extends_trans(s1, t0, t1); mid = t1; lemma_extends_refl(t1); }
                if regs.get_gp_regs().0 != 0 {
                    Self::emit_bulk(block_asm, regs, write, base_reg_out, base_reg_out, m.write_back, m.pre, false);
                    proof { lemma_extends_trans(s1, t1, block_asm.insts@); }
                }
            } else {
                let ghost t0 = block_asm.insts@;
                proof { lemma_extends_refl(t0); }
                if regs.get_gp_regs().0 != 0 {
                    Self::emit_bulk(block_asm, regs, write, base_reg, base_reg_out, true, m.pre, true);
                    proof { lemma_extends_trans(s1, t0, block_asm.insts@); }
                }
                let ghost t1 = block_asm.insts@;
                proof { mid = t1; lemma_extends_refl(t1); }
                Self::emit_bulk(block_asm, rest, write, base_reg_out, base_reg_out, m.write_back, m.pre, true);
                proof { lemma_extends_trans(s1, t1, block_asm.insts@); }
            }
        } else {
            Self::emit_bulk(block_asm, regs, write, base_reg, base_reg_out, m.write_back, m.pre, !m.decrement);
        }
        let ghost s2 = block_asm.insts@;
        proof {
            let bulk = s2.subrange(s1.len() as int, s2.len() as int);
            if needs_rlist_split {
                assert(extends(mid, s1));
                assert(extends(s2, mid));
                let k = mid.len() - s1.len();
                assert(bulk.subrange(0, k) =~= mid.subrange(s1.len() as int, mid.len() as int));
                assert(bulk.subrange(k, bulk.len() as int) =~= s2.subrange(mid.len() as int, s2.len() as int));
                assert(lower_half(rlist.0, regs.0));
                assert(self.split_bulk_ok(rlist.0, regs.0, bulk.subrange(0, k), bulk.subrange(k, bulk.len() as int), reg0));
            }
            assert(self.multiple_bulk_ok(rlist.0, bulk, reg0));
        }
        self.emit_multiple_exit(block_asm, rlist, base_reg, base_reg_out, slow_label, Ghost(reg0));
        block_asm.free_reg(base_reg_out);
        block_asm.free_reg(base_reg);
        proof {
            lemma_extends_trans(start, s1, s2);
            let bulk = s2.subrange(s1.len() as int, s2.len() as int);
            let head = seq![
                BlockInst::Branch { label: slow_label, cond: Cond::NV },
                BlockInst::Bic { dst: base_reg, lhs: BlockReg::Guest(op0), rhs: BlockOperand::Imm(0xF000_0003) },
                BlockInst::Add { dst: base_reg, lhs: base_reg, rhs: BlockOperand::Imm(self.base_tcm_ptr) },
            ];
            assert(s1 =~= start + head);
            assert(s2 =~= s1 + bulk);
            let exit = self.multiple_exit_seq(rlist.0, reg0, slow_label);
            assert(block_asm.insts@ =~= start + (head + bulk + exit));
            assert(block_asm.insts@ == start + self.multiple_fast_seq(rlist.0, bulk, reg0, slow_label));
            assert(block_asm.insts@.subrange(0, start.len() as int) =~= start);
            assert(block_asm.insts@[start.len() as int] == head[0]);
        }
    }
}

impl JitAsm {
    /// Emits a load- or store-multiple: where the fast path may serve it, a
    /// bulk copy through the window (in two halves for long lists), then the
    /// slow path that hands the packed register list to the out-of-line
    /// handler and reloads what it may have changed.
    #[verifier::rlimit(40)]
    pub fn emit_multiple_transfer(&mut self, block_asm: &mut BlockAsm, thumb: bool)
        requires
            old(self).emit_ok(old(block_asm), 3, 3),
            old(self).jit_buf.spec_current_inst().op.spec_multiple() is Some,
            old(self).jit_buf.spec_current_inst().operands[0].spec_as_reg_no_shift() is Some,
            spec_reg_index(old(self).jit_buf.spec_current_inst().operands[0].spec_as_reg_no_shift()->0) <= 15,
        ensures
            *final(self) == *old(self),
            ({
                let o = old(block_asm).insts@;
                let n = final(block_asm).insts@;
                let slow = old(self).multiple_slow_seq(thumb, old(block_asm).label_count);
                let fast = old(self).use_fast_mem(old(self).multiple_rlist(thumb));
                &&& n.len() >= o.len() + slow.len()
                &&& n.subrange(0, o.len() as int) == o
                &&& n.subrange(n.len() - slow.len(), n.len() as int) == slow
                &&& fast <==> n.len() > o.len() + slow.len()
                &&& fast ==> n[o.len() as int] == (BlockInst::Branch { label: old(block_asm).label_count, cond: Cond::NV })
                &&& fast ==> exists|bulk: Seq<BlockInst>|
                    old(self).multiple_bulk_ok(old(self).multiple_rlist(thumb), bulk, (old(block_asm).live@.len() + 1) as u16)
                    && n == o + #[trigger] old(self).multiple_fast_seq(old(self).multiple_rlist(thumb), bulk,
                    (old(block_asm).live@.len() + 1) as u16, old(block_asm).label_count) + slow
                &&& !fast ==> n == o + slow
            }),
            final(block_asm).released_since(old(block_asm)),
            final(block_asm).label_count == old(block_asm).label_count + 3,
    {
        let inst_info = self.jit_buf.current_inst();
        let mut rlist = RegReserve(inst_info.opcode & if thumb { 0xFFu32 } else { 0xFFFFu32 });
        if inst_info.op == Op::PushLrT {
            rlist = rlist.add_reg(Reg::LR);
        } else if inst_info.op == Op::PopPcT {
            rlist = rlist.add_reg(Reg::PC);
        }
        proof {
            let (c, t) = (inst_info.opcode, thumb);
            assert((c & 0xFFu32) & !0x3FFFFu32 == 0 && (c & 0xFFFFu32) & !0x3FFFFu32 == 0) by (bit_vector);
            assert(((c & 0xFFu32) | (1u32 << 14u8)) & !0x3FFFFu32 == 0 && ((c & 0xFFu32) | (1u32 << 15u8)) & !0x3FFFFu32 == 0
                && ((c & 0xFFFFu32) | (1u32 << 14u8)) & !0x3FFFFu32 == 0 && ((c & 0xFFFFu32) | (1u32 << 15u8)) & !0x3FFFFu32 == 0) by (bit_vector);
            assert(rlist.0 == self.multiple_rlist(thumb));
        }
        let m = match inst_info.op.multiple() {
            Some(m) => m,
            None => crate::inst_info::MultipleTransfer { pre: false, write_back: false, decrement: false, user: false },
        };
        let op0 = match inst_info.operands[0].as_reg_no_shift() { Some(r) => r, None => Reg::R0 };
        let slow_label = block_asm.new_label();
        let fast_mem_mark_dirty_label = block_asm.new_label();
        let continue_label = block_asm.new_label();
        let cpsr_backup_reg = block_asm.new_reg();
        let use_fast_mem = !m.user && !rlist.is_empty() && (!m.write_back || !rlist.is_reserved(op0));
        let ghost o = old(block_asm).insts@;
        proof { lemma_extends_refl(o); }
        if use_fast_mem {
            self.emit_multiple_fast(block_asm, rlist, thumb, slow_label, fast_mem_mark_dirty_label, continue_label,
                Ghost((old(block_asm).live@.len() + 1) as u16));
        }
        let ghost mid = block_asm.insts@;
        self.emit_multiple_slow(block_asm, rlist, thumb, use_fast_mem, slow_label);
        block_asm.free_reg(cpsr_backup_reg);
        proof {
            let slow = self.multiple_slow_seq(thumb, old(block_asm).label_count);
            assert(block_asm.insts@ == mid + slow);
            assert(block_asm.insts@.subrange(0, o.len() as int) =~= mid.subrange(0, o.len() as int));
            assert(block_asm.insts@.subrange(block_asm.insts@.len() - slow.len(), block_asm.insts@.len() as int) =~= slow);
            if use_fast_mem {
                assert(block_asm.insts@[o.len() as int] == mid[o.len() as int]);
            }
        }
    }
}

impl JitAsm {
    #[verifier::rlimit(40)]
    fn emit_multiple_slow(&self, block_asm: &mut BlockAsm, rlist: RegReserve, thumb: bool, use_fast_mem: bool, slow_label: u16)
        requires
            self.jit_buf.wf(),
            self.jit_buf.spec_current_inst().op.spec_multiple() is Some,
            self.jit_buf.spec_current_inst().operands[0].spec_as_reg_no_shift() is Some,
            spec_reg_index(self.jit_buf.spec_current_inst().operands[0].spec_as_reg_no_shift()->0) <= 15,
            rlist.wf(),
            rlist.0 == self.multiple_rlist(thumb),
            use_fast_mem == self.use_fast_mem(rlist.0),
            slow_label as int + 2 <= u16::MAX,
        ensures
            final(block_asm).insts@ == old(block_asm).insts@ + self.multiple_slow_seq(thumb, slow_label),
            final(block_asm).live == old(block_asm).live,
            final(block_asm).label_count == old(block_asm).label_count,
    {
        let inst_info = self.jit_buf.current_inst();
        let m = match inst_info.op.multiple() {
            Some(m) => m,
            None => crate::inst_info::MultipleTransfer { pre: false, write_back: false, decrement: false, user: false },
        };
        let write = inst_info.op.mem_is_write();
        let op0 = match inst_info.operands[0].as_reg_no_shift() { Some(r) => r, None => Reg::R0 };
        let continue_label = slow_label + 2;
        let fast_mem_mark_dirty_label = slow_label + 1;
        // The slow path of a load joins the fast path's dirty marks.
        let tail_label = if write { continue_label } else { fast_mem_mark_dirty_label };
        let pre = if m.decrement { !m.pre } else { m.pre };
        let func = CallTarget::MemMultipleHandler { cpu: self.cpu, write, write_back: m.write_back, decrement: m.decrement };
        let ghost o = block_asm.insts@;
        if use_fast_mem {
            block_asm.emit(BlockInst::Label { label: slow_label, unlikely: true });
        }
        let ghost p0 = block_asm.insts@;
        block_asm.emit(BlockInst::SaveContext);
        let params = multiple_params(rlist.0, rlist.len(), op0.index() as u32, pre, m.user);
        block_asm.emit(BlockInst::Call3 {
            func,
            a0: BlockOperand::Imm(params),
            a1: BlockOperand::Imm(self.jit_buf.current_pc | if thumb { 1u32 } else { 0u32 }),
            a2: BlockOperand::Imm(self.jit_buf.insts_cycle_counts[self.jit_buf.current_index] as u32),
        });
        let ghost p1 = block_asm.insts@;
        let restore_regs = RegReserve(
            (if m.write_back { 1u32 << (op0.index() as u32) } else { 0u32 }) | (if !write { rlist.0 } else { 0u32 }),
        );
        emit_restore_mask(block_asm, restore_regs.0);
        let ghost p2 = block_asm.insts@;
        block_asm.emit(BlockInst::RestoreReg(Reg::CPSR));
        let ghost p3 = block_asm.insts@;
        if use_fast_mem {
            self.emit_slow_tail(block_asm, tail_label);
            let ghost p4 = block_asm.insts@;
            if !write {
                block_asm.emit(BlockInst::Label { label: fast_mem_mark_dirty_label, unlikely: false });
                emit_dirty_mask(block_asm, rlist.0, true);
            }
            let ghost p5 = block_asm.insts@;
            block_asm.emit(BlockInst::Label { label: continue_label, unlikely: false });
            proof {
                assert(p5 =~= p4 + (if !write { seq![BlockInst::Label { label: fast_mem_mark_dirty_label, unlikely: false }] + dirty_mask_seq(rlist.0, true) } else { Seq::empty() }));
                assert(block_asm.insts@ =~= p3 + (self.slow_tail_seq(tail_label)
                    + (if !write { seq![BlockInst::Label { label: fast_mem_mark_dirty_label, unlikely: false }] + dirty_mask_seq(rlist.0, true) } else { Seq::empty() })
                    + seq![BlockInst::Label { label: continue_label, unlikely: false }]));
            }
        }
        proof {
            let f = |acc: Seq<BlockInst>, x: Seq<BlockInst>| acc + x;
            let tail = if use_fast_mem {
                self.slow_tail_seq(tail_label)
                    + (if !write { seq![BlockInst::Label { label: fast_mem_mark_dirty_label, unlikely: false }] + dirty_mask_seq(rlist.0, true) } else { Seq::empty() })
                    + seq![BlockInst::Label { label: continue_label, unlikely: false }]
            } else {
                Seq::empty()
            };
            let parts = seq![
                (if use_fast_mem { seq![BlockInst::Label { label: slow_label, unlikely: true }] } else { Seq::empty() }),
                seq![
                    BlockInst::SaveContext,
                    BlockInst::Call3 {
                        func,
                        a0: BlockOperand::Imm(params),
                        a1: BlockOperand::Imm(tagged_pc(self.jit_buf.current_pc, thumb)),
                        a2: BlockOperand::Imm(self.jit_buf.spec_current_cycles() as u32),
                    },
                ],
                restore_mask_seq(restore_regs.0),
                seq![BlockInst::RestoreReg(Reg::CPSR)],
                tail,
            ];
            assert(p0 =~= o + parts[0]);
            assert(p1 =~= p0 + parts[1]);
            assert(p3 =~= p2 + parts[3]);
            assert(block_asm.insts@ =~= p3 + parts[4]);
            lemma_concat_chain(o, parts);
            assert(parts.fold_left(o, f) == block_asm.insts@) by {
                reveal_with_fuel(Seq::fold_left, 6);
            }
            let b = reg_bit(op0);
            let a = rlist.0;
            assert(b == 1u32 << (spec_reg_index(op0) as u32));
            assert(restore_regs.0 == ((if m.write_back { b } else { 0u32 }) | (if !write { a } else { 0u32 })) as u32);
            assert(parts.fold_left(Seq::empty(), f) == self.multiple_slow_seq(thumb, slow_label)) by {
                reveal_with_fuel(Seq::fold_left, 6);
            }
        }
    }
}

} // verus!

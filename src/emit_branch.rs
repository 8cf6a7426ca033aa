use vstd::prelude::*;
use crate::block_asm::{BlockAsm, BlockInst, BlockOperand, BlockReg, CallTarget};
use crate::cpu::CpuType;
use crate::inst_info::{Cond, InstInfo, Op};
use crate::jit_asm::{align_guest_pc, cycle_sum, spec_align_guest_pc, JitAsm, PRE_CYCLE_COUNT_SUM_OFFSET};
use crate::reg::{spec_reg_from_index, Reg, PC_BIT};

verus! {

/// How a branch to a label is linked.
#[derive(Clone, Copy, PartialEq, Eq, Structural, Debug)]
pub enum JitBranchInfo {
    /// A loop back to the instruction at this index that does nothing but spin.
    Idle(usize),
    /// A jump to the instruction at this index of the same block.
    Local(usize),
    /// A jump out of the block.
    External,
}

/// The idle-loop scan from instruction `i` on, with the registers written so
/// far and those that may no longer be written: it fails on a branch that is
/// not the last instruction, a system call or coprocessor or status-register
/// move, a memory write, or a write to a register that an earlier instruction
/// read before the span wrote it.
pub open spec fn idle_scan(s: Seq<InstInfo>, i: int, written: u32, disallowed: u32) -> bool
    decreases s.len() - i,
{
    if i < 0 || i >= s.len() {
        true
    } else {
        let inst = s[i];
        if (inst.spec_is_branch() && i < s.len() - 1) || inst.op.spec_is_system() || inst.op.spec_mem_is_write() {
            false
        } else {
            let src = inst.src_regs.0 & !PC_BIT;
            let out = inst.out_regs.0 & !PC_BIT;
            let dis = disallowed | (src & !written);
            if out & dis != 0 {
                false
            } else {
                idle_scan(s, i + 1, written | out, dis)
            }
        }
    }
}

/// Whether the instruction span `s` is an idle loop.
pub open spec fn spec_is_idle_loop(s: Seq<InstInfo>) -> bool {
    idle_scan(s, 0, 0, 0)
}

/// The instruction distance between a branch at `pc` and `target`, rounded
/// towards minus infinity.
pub open spec fn spec_relative_index(pc: u32, target: u32, thumb: bool) -> int {
    (target as int - pc as int) / if thumb { 2int } else { 4int }
}

/// How a branch at instruction `branch_index` of `insts`, at guest address
/// `pc`, with condition `cond`, to guest address `target_pc`, is linked.
pub open spec fn spec_analyze_branch_label(insts: Seq<InstInfo>, branch_index: int, cond: Cond, pc: u32, target_pc: u32, thumb: bool) -> JitBranchInfo {
    let target = target_pc & !1u32;
    let step = if thumb { 2int } else { 4int };
    let diff = (pc as int - target as int) / step;
    let target_index = branch_index + spec_relative_index(pc, target, thumb);
    if (thumb || insts[branch_index].op != Op::Bl) && cond.spec_is_conditional() && target <= pc && diff <= branch_index
        && spec_is_idle_loop(insts.subrange(branch_index - diff, branch_index + 1)) {
        JitBranchInfo::Idle((branch_index - diff) as usize)
    } else if 0 <= target_index < insts.len() {
        JitBranchInfo::Local(target_index as usize)
    } else {
        JitBranchInfo::External
    }
}

impl JitAsm {
    /// Whether the span `insts[start..end]` is an idle loop.
    fn is_idle_span(insts: &[InstInfo], start: usize, end: usize) -> (r: bool)
        requires
            start <= end <= insts@.len(),
        ensures
            r == spec_is_idle_loop(insts@.subrange(start as int, end as int)),
    {
        let ghost s = insts@.subrange(start as int, end as int);
        let mut written: u32 = 0;
        let mut disallowed: u32 = 0;
        let mut i: usize = start;
        while i < end
            invariant
                start <= i <= end <= insts@.len(),
                s == insts@.subrange(start as int, end as int),
                idle_scan(s, 0, 0, 0) == idle_scan(s, i - start, written, disallowed),
            decreases end - i,
        {
            let inst = &insts[i];
            assert(*inst == s[i - start]);
            if (inst.is_branch() && i < end - 1) || inst.op.is_system() || inst.op.mem_is_write() {
                return false;
            }
            let src_regs = inst.src_regs.0 & !PC_BIT;
            let out_regs = inst.out_regs.0 & !PC_BIT;
            disallowed = disallowed | (src_regs & !written);
            if out_regs & disallowed != 0 {
                return false;
            }
            written = written | out_regs;
            i = i + 1;
        }
        true
    }

    /// Whether the instruction span `insts` is an idle loop: no instruction but
    /// the last is a branch, none is a system call or a coprocessor or status
    /// register move, none writes memory, and none writes a register that an
    /// earlier instruction of the span read before the span had written it.
    pub fn is_idle_loop(insts: &[InstInfo]) -> (r: bool)
        ensures
            r == spec_is_idle_loop(insts@),
    {
        proof {
            assert(insts@.subrange(0, insts@.len() as int) =~= insts@);
        }
        Self::is_idle_span(insts, 0, insts.len())
    }

    /// Classifies a branch to a label: a conditional branch (not a call) to an
    /// address at or before itself, over an idle loop, is `Idle`, one whose target lies in the block is
    /// `Local`, any other is `External`.
    #[verifier::rlimit(40)]
    pub fn analyze_branch_label(insts: &[InstInfo], branch_index: usize, cond: Cond, pc: u32, target_pc: u32, thumb: bool) -> (r: JitBranchInfo)
        requires
            branch_index < insts@.len(),
        ensures
            r == spec_analyze_branch_label(insts@, branch_index as int, cond, pc, target_pc, thumb),
    {
        let n = insts.len();
        let target_pc = target_pc & !1u32;
        let step: u32 = if thumb { 2 } else { 4 };
        if (thumb || insts[branch_index].op != Op::Bl) && cond.is_conditional() && target_pc <= pc {
            let diff = (pc - target_pc) / step;
            if diff as usize <= branch_index {
                let jump_to_index = branch_index - diff as usize;
                if Self::is_idle_span(insts, jump_to_index, branch_index + 1) {
                    return JitBranchInfo::Idle(jump_to_index);
                }
            }
        }
        if target_pc >= pc {
            let forward = ((target_pc - pc) / step) as usize;
            if forward < n - branch_index {
                JitBranchInfo::Local(branch_index + forward)
            } else {
                JitBranchInfo::External
            }
        } else {
            let backward = ((pc - target_pc - 1) / step) as usize + 1;
            proof {
                let d = pc as int - target_pc as int;
                let q = (d - 1) / (step as int);
                vstd::arithmetic::div_mod::lemma_fundamental_div_mod(d - 1, step as int);
                vstd::arithmetic::div_mod::lemma_mod_bound(d - 1, step as int);
                vstd::arithmetic::div_mod::lemma_fundamental_div_mod_converse(-d, step as int, -q - 1,
                    step - 1 - (d - 1) % (step as int));
                assert(spec_relative_index(pc, target_pc, thumb) == -q - 1);
            }
            if backward <= branch_index {
                JitBranchInfo::Local(branch_index - backward)
            } else {
                JitBranchInfo::External
            }
        }
    }
}

/// Reloads R0 to LR and the status register from the saved guest context.
pub open spec fn restore_all_seq() -> Seq<BlockInst> {
    Seq::new(15, |i: int| BlockInst::RestoreReg(spec_reg_from_index(i as u8))).push(BlockInst::RestoreReg(Reg::CPSR))
}

/// Where a call that was the block's last instruction continues: the guest
/// address after it.
pub open spec fn return_pc(current_pc: u32, thumb: bool) -> u32 {
    if thumb {
        ((current_pc + 2) as u32 | 1u32) as u32
    } else {
        (current_pc + 4) as u32
    }
}

impl JitAsm {
    pub open spec fn is_last_inst(&self) -> bool {
        self.jit_buf.current_index == self.jit_buf.insts@.len() - 1
    }

    /// After a call that returns: the last instruction of the block chains
    /// into the block that follows the call, with nothing charged yet; any
    /// other instruction reloads the guest context.
    pub open spec fn after_call_seq(&self, thumb: bool, reg0: u16) -> Seq<BlockInst> {
        if self.is_last_inst() {
            seq![
                BlockInst::Mov { dst: BlockReg::Any(reg0), src: BlockOperand::Imm(0) },
                BlockInst::Mov { dst: BlockReg::Any((reg0 + 1) as u16), src: BlockOperand::Imm(self.runtime_data_addr) },
                BlockInst::StoreU16 { value: BlockReg::Any(reg0), base: BlockReg::Any((reg0 + 1) as u16), offset: PRE_CYCLE_COUNT_SUM_OFFSET },
                BlockInst::CallJitAddrImm { target_pc: return_pc(self.jit_buf.current_pc, thumb), has_return: true },
                BlockInst::EpiloguePreviousBlock,
            ]
        } else {
            restore_all_seq()
        }
    }

    /// Code of a branch out of the block to the guest address `target_pc`.
    pub open spec fn external_label_seq(&self, target_pc: u32, has_lr_return: bool, thumb: bool, reg0: u16) -> Seq<BlockInst> {
        let target_is_thumb = target_pc & 1 == 1;
        let target = spec_align_guest_pc(target_pc) | (if target_is_thumb { 1u32 } else { 0u32 });
        let total_cycles = self.jit_buf.spec_current_cycles();
        let current_pc = self.jit_buf.current_pc;
        seq![
            BlockInst::Mov { dst: BlockReg::Guest(Reg::PC), src: BlockOperand::Imm(target) },
            BlockInst::SaveContext,
        ] + if has_lr_return {
            seq![BlockInst::CallBranchImmWithLrReturn {
                thumb: target_is_thumb,
                total_cycles,
                target_pc: target,
                lr: BlockReg::Guest(Reg::LR),
                current_pc,
            }] + self.after_call_seq(thumb, reg0)
        } else {
            seq![BlockInst::CallBranchImmNoReturn { total_cycles, current_pc, target_pc: target }]
        }
    }

    /// Code of a branch out of the block to the guest address held in `target`.
    pub open spec fn reg_branch_seq(&self, target: BlockReg, has_lr_return: bool, thumb: bool, reg0: u16) -> Seq<BlockInst> {
        let total_cycles = self.jit_buf.spec_current_cycles();
        let current_pc = self.jit_buf.current_pc;
        seq![
            BlockInst::Mov { dst: BlockReg::Guest(Reg::PC), src: BlockOperand::Reg(target) },
            BlockInst::SaveContext,
        ] + if has_lr_return {
            seq![BlockInst::CallBranchRegWithLrReturn { total_cycles, target, lr: BlockReg::Guest(Reg::LR), current_pc }]
                + self.after_call_seq(thumb, reg0)
        } else {
            seq![BlockInst::CallBranchRegNoReturn { total_cycles, target, current_pc }]
        }
    }

    pub open spec fn emit_ok(&self, block_asm: &BlockAsm, regs: int, labels: int) -> bool {
        &&& self.jit_buf.wf()
        &&& block_asm.has_room(regs, labels)
    }

    fn emit_after_call(&mut self, block_asm: &mut BlockAsm, thumb: bool)
        requires
            old(self).emit_ok(old(block_asm), 2, 0),
            old(self).jit_buf.current_pc + 4 <= u32::MAX,
        ensures
            *final(self) == *old(self),
            final(block_asm).insts@ == old(block_asm).insts@ + old(self).after_call_seq(thumb, old(block_asm).live@.len() as u16),
            final(block_asm).released_since(old(block_asm)),
            final(block_asm).label_count == old(block_asm).label_count,
    {
        if self.jit_buf.current_index == self.jit_buf.insts.len() - 1 {
            let total_cycles_reg = block_asm.new_reg();
            let runtime_data_addr_reg = block_asm.new_reg();
            block_asm.emit(BlockInst::Mov { dst: total_cycles_reg, src: BlockOperand::Imm(0) });
            block_asm.emit(BlockInst::Mov { dst: runtime_data_addr_reg, src: BlockOperand::Imm(self.runtime_data_addr) });
            block_asm.emit(BlockInst::StoreU16 { value: total_cycles_reg, base: runtime_data_addr_reg, offset: PRE_CYCLE_COUNT_SUM_OFFSET });
            let next_pc = if thumb { (self.jit_buf.current_pc + 2) | 1 } else { self.jit_buf.current_pc + 4 };
            block_asm.emit(BlockInst::CallJitAddrImm { target_pc: next_pc, has_return: true });
            block_asm.emit(BlockInst::EpiloguePreviousBlock);
            block_asm.free_reg(runtime_data_addr_reg);
            block_asm.free_reg(total_cycles_reg);
            proof {
                assert(block_asm.insts@ =~= old(block_asm).insts@ + self.after_call_seq(thumb, old(block_asm).live@.len() as u16));
            }
        } else {
            let ghost start = block_asm.insts@;
            let mut reg: u8 = 0;
            while reg <= 14
                invariant
                    reg <= 15,
                    block_asm.insts@ =~= start + Seq::new(reg as nat, |i: int| BlockInst::RestoreReg(spec_reg_from_index(i as u8))),
                    block_asm.live == old(block_asm).live,
                    block_asm.label_count == old(block_asm).label_count,
                decreases 15 - reg,
            {
                let r = Reg::from_index(reg);
                block_asm.emit(BlockInst::RestoreReg(r));
                reg = reg + 1;
            }
            block_asm.emit(BlockInst::RestoreReg(Reg::CPSR));
            proof {
                assert(block_asm.insts@ =~= old(block_asm).insts@ + restore_all_seq());
            }
        }
    }

    /// Emits a branch out of the block to the guest address `target_pc`, as a
    /// call that returns when `has_lr_return`.
    #[verifier::rlimit(40)]
    pub fn emit_branch_external_label(&mut self, block_asm: &mut BlockAsm, target_pc: u32, has_lr_return: bool, thumb: bool)
        requires
            old(self).emit_ok(old(block_asm), 2, 0),
            old(self).jit_buf.current_pc + 4 <= u32::MAX,
        ensures
            *final(self) == *old(self),
            final(block_asm).insts@ == old(block_asm).insts@ + old(self).external_label_seq(target_pc, has_lr_return, thumb, old(block_asm).live@.len() as u16),
            final(block_asm).released_since(old(block_asm)),
            !has_lr_return ==> final(block_asm).live == old(block_asm).live,
            final(block_asm).label_count == old(block_asm).label_count,
    {
        let target_is_thumb = target_pc & 1 == 1;
        let target = align_guest_pc(target_pc) | (if target_is_thumb { 1u32 } else { 0u32 });
        block_asm.emit(BlockInst::Mov { dst: BlockReg::Guest(Reg::PC), src: BlockOperand::Imm(target) });
        block_asm.emit(BlockInst::SaveContext);
        let total_cycles = self.jit_buf.insts_cycle_counts[self.jit_buf.current_index];
        let current_pc = self.jit_buf.current_pc;
        if has_lr_return {
            block_asm.emit(BlockInst::CallBranchImmWithLrReturn {
                thumb: target_is_thumb,
                total_cycles,
                target_pc: target,
                lr: BlockReg::Guest(Reg::LR),
                current_pc,
            });
            self.emit_after_call(block_asm, thumb);
            proof {
                assert(block_asm.insts@ =~= old(block_asm).insts@ + old(self).external_label_seq(target_pc, has_lr_return, thumb, old(block_asm).live@.len() as u16));
            }
        } else {
            block_asm.emit(BlockInst::CallBranchImmNoReturn { total_cycles, current_pc, target_pc: target });
            proof {
                assert(block_asm.insts@ =~= old(block_asm).insts@ + old(self).external_label_seq(target_pc, has_lr_return, thumb, old(block_asm).live@.len() as u16));
            }
        }
    }

    /// Emits a branch out of the block to the guest address held in `target_pc_reg`,
    /// as a call that returns when `has_lr_return`.
    pub fn emit_branch_reg_common(&mut self, block_asm: &mut BlockAsm, target_pc_reg: BlockReg, has_lr_return: bool, thumb: bool)
        requires
            old(self).emit_ok(old(block_asm), 2, 0),
            old(self).jit_buf.current_pc + 4 <= u32::MAX,
        ensures
            *final(self) == *old(self),
            final(block_asm).insts@ == old(block_asm).insts@ + old(self).reg_branch_seq(target_pc_reg, has_lr_return, thumb, old(block_asm).live@.len() as u16),
            final(block_asm).released_since(old(block_asm)),
            final(block_asm).label_count == old(block_asm).label_count,
    {
        block_asm.emit(BlockInst::Mov { dst: BlockReg::Guest(Reg::PC), src: BlockOperand::Reg(target_pc_reg) });
        block_asm.emit(BlockInst::SaveContext);
        let total_cycles = self.jit_buf.insts_cycle_counts[self.jit_buf.current_index];
        let current_pc = self.jit_buf.current_pc;
        if has_lr_return {
            block_asm.emit(BlockInst::CallBranchRegWithLrReturn { total_cycles, target: target_pc_reg, lr: BlockReg::Guest(Reg::LR), current_pc });
            self.emit_after_call(block_asm, thumb);
        } else {
            block_asm.emit(BlockInst::CallBranchRegNoReturn { total_cycles, target: target_pc_reg, current_pc });
        }
        proof {
            assert(block_asm.insts@ =~= old(block_asm).insts@ + old(self).reg_branch_seq(target_pc_reg, has_lr_return, thumb, old(block_asm).live@.len() as u16));
        }
    }

    /// Emits a return through the return-address stack to the guest address held in `target_pc_reg`.
    pub fn emit_branch_return_stack_common(&mut self, block_asm: &mut BlockAsm, target_pc_reg: BlockReg)
        requires
            old(self).jit_buf.wf(),
        ensures
            *final(self) == *old(self),
            final(block_asm).insts@ == old(block_asm).insts@ + seq![
                BlockInst::CallBranchReturnStack {
                    total_cycles: old(self).jit_buf.spec_current_cycles(),
                    target: target_pc_reg,
                    current_pc: old(self).jit_buf.current_pc,
                },
                BlockInst::EpiloguePreviousBlock,
            ],
            final(block_asm).live == old(block_asm).live,
            final(block_asm).label_count == old(block_asm).label_count,
    {
        block_asm.emit(BlockInst::CallBranchReturnStack {
            total_cycles: self.jit_buf.insts_cycle_counts[self.jit_buf.current_index],
            target: target_pc_reg,
            current_pc: self.jit_buf.current_pc,
        });
        block_asm.emit(BlockInst::EpiloguePreviousBlock);
        proof {
            assert(block_asm.insts@ =~= old(block_asm).insts@ + seq![
                BlockInst::CallBranchReturnStack {
                    total_cycles: old(self).jit_buf.spec_current_cycles(),
                    target: target_pc_reg,
                    current_pc: old(self).jit_buf.current_pc,
                },
                BlockInst::EpiloguePreviousBlock,
            ]);
        }
    }
}

/// Guest address that a branch at `pc` with offset `imm` reaches: the
/// pipeline has the program counter 8 bytes ahead.
pub open spec fn branch_target(pc: u32, imm: u32) -> u32 {
    ((pc as int + imm as int + 8) % 0x1_0000_0000) as u32
}

impl JitAsm {
    /// Code of a branch to a label, by its classification.
    pub open spec fn label_common_seq(&self, target_pc: u32, cond: Cond, thumb: bool, reg0: u16, label0: u16) -> Seq<BlockInst> {
        let target = spec_align_guest_pc(target_pc) | (target_pc & 1);
        self.label_info_seq(
            spec_analyze_branch_label(self.jit_buf.insts@, self.jit_buf.current_index as int, cond, self.jit_buf.current_pc, target, thumb),
            target, reg0, label0)
    }

    /// Code of a branch to the guest address `target` with classification `info`.
    pub open spec fn label_info_seq(&self, info: JitBranchInfo, target: u32, reg0: u16, label0: u16) -> Seq<BlockInst> {
        let insts = self.jit_buf.insts@;
        match info {
            JitBranchInfo::Local(target_index) => {
                let r1 = BlockReg::Any(reg0);
                let r2 = BlockReg::Any((reg0 + 1) as u16);
                let r3 = BlockReg::Any((reg0 + 2) as u16);
                seq![
                    BlockInst::Mov { dst: r1, src: BlockOperand::Imm(self.jit_buf.spec_current_cycles() as u32) },
                    BlockInst::Mov { dst: r2, src: BlockOperand::Imm(cycle_sum(insts, target_index as int) as u32) },
                    BlockInst::MrsCpsr(r3),
                    BlockInst::FlushCycles { total_cycles: r1, target_pre_cycle_count_sum: r2, check_scheduler: self.cpu == CpuType::ARM9, breakout: label0 },
                    BlockInst::MsrCpsr(r3),
                    BlockInst::GuestBranch { cond: Cond::AL, target: target & !1u32 },
                    BlockInst::Label { label: label0, unlikely: true },
                    BlockInst::MsrCpsr(r3),
                    BlockInst::Mov { dst: BlockReg::Guest(Reg::PC), src: BlockOperand::Imm(target) },
                    BlockInst::SaveContext,
                ] + if self.cpu == CpuType::ARM7 {
                    seq![BlockInst::BranchOutMetadata { idle_loop: false, count_cycles: false }, BlockInst::Epilogue]
                } else {
                    Seq::empty()
                }
            },
            JitBranchInfo::Idle(jump_to_index) => {
                seq![
                    BlockInst::Mov { dst: BlockReg::Guest(Reg::PC), src: BlockOperand::Imm(target) },
                    BlockInst::SaveContext,
                ] + match self.cpu {
                    CpuType::ARM9 => seq![
                        BlockInst::Call2 {
                            func: CallTarget::IdleLoop { hle: self.arm7_hle },
                            a0: BlockOperand::Imm(self.self_addr),
                            a1: BlockOperand::Imm(cycle_sum(insts, jump_to_index as int) as u32),
                        },
                        BlockInst::RestoreReg(Reg::CPSR),
                        BlockInst::GuestBranch { cond: Cond::AL, target: target & !1u32 },
                    ],
                    CpuType::ARM7 => seq![
                        BlockInst::BranchOutMetadata { idle_loop: true, count_cycles: true },
                        BlockInst::Epilogue,
                    ],
                }
            },
            JitBranchInfo::External => self.external_label_seq(target, false, false, reg0),
        }
    }

    /// Labels that the code of a branch to a label takes.
    pub open spec fn label_common_labels(&self, target_pc: u32, cond: Cond, thumb: bool) -> int {
        let target = spec_align_guest_pc(target_pc) | (target_pc & 1);
        match spec_analyze_branch_label(self.jit_buf.insts@, self.jit_buf.current_index as int, cond, self.jit_buf.current_pc, target, thumb) {
            JitBranchInfo::Local(_) => 1,
            _ => 0,
        }
    }

    /// Emits a branch to the guest address `target_pc`: a jump within the block
    /// after charging the cycles up to the target, a call into the idle-loop
    /// handler, or a branch out of the block.
    pub fn emit_branch_label_common(&mut self, block_asm: &mut BlockAsm, target_pc: u32, cond: Cond, thumb: bool)
        requires
            old(self).emit_ok(old(block_asm), 3, 1),
            old(self).jit_buf.current_pc + 4 <= u32::MAX,
        ensures
            *final(self) == *old(self),
            final(block_asm).insts@ == old(block_asm).insts@ + old(self).label_common_seq(target_pc, cond, thumb,
                old(block_asm).live@.len() as u16, old(block_asm).label_count),
            final(block_asm).released_since(old(block_asm)),
            final(block_asm).label_count == old(block_asm).label_count + old(self).label_common_labels(target_pc, cond, thumb),
    {
        let target = align_guest_pc(target_pc) | (target_pc & 1);
        let info = Self::analyze_branch_label(self.jit_buf.insts.as_slice(), self.jit_buf.current_index, cond, self.jit_buf.current_pc, target, thumb);
        match info {
            JitBranchInfo::Local(target_index) => self.emit_branch_local(block_asm, target_index, target),
            JitBranchInfo::Idle(jump_to_index) => self.emit_branch_idle(block_asm, jump_to_index, target),
            JitBranchInfo::External => self.emit_branch_external_label(block_asm, target, false, false),
        }
    }

    #[verifier::rlimit(40)]
    fn emit_branch_local(&mut self, block_asm: &mut BlockAsm, target_index: usize, target: u32)
        requires
            old(self).emit_ok(old(block_asm), 3, 1),
            target_index < old(self).jit_buf.insts@.len(),
        ensures
            *final(self) == *old(self),
            final(block_asm).insts@ == old(block_asm).insts@ + old(self).label_info_seq(JitBranchInfo::Local(target_index), target,
                old(block_asm).live@.len() as u16, old(block_asm).label_count),
            final(block_asm).released_since(old(block_asm)),
            final(block_asm).label_count == old(block_asm).label_count + 1,
    {
        proof {
            assert(self.jit_buf.insts_cycle_counts@[target_index as int] == cycle_sum(self.jit_buf.insts@, target_index + 1));
            crate::jit_asm::lemma_cycle_sum_nonneg(self.jit_buf.insts@, target_index as int);
        }
        let target_pre_cycle_count_sum = self.jit_buf.insts_cycle_counts[target_index] - self.jit_buf.insts[target_index].cycle as u16;
        let total_cycles_reg = block_asm.new_reg();
        block_asm.emit(BlockInst::Mov {
            dst: total_cycles_reg,
            src: BlockOperand::Imm(self.jit_buf.insts_cycle_counts[self.jit_buf.current_index] as u32),
        });
        let target_pre_cycle_count_sum_reg = block_asm.new_reg();
        block_asm.emit(BlockInst::Mov { dst: target_pre_cycle_count_sum_reg, src: BlockOperand::Imm(target_pre_cycle_count_sum as u32) });
        let backed_up_cpsr_reg = block_asm.new_reg();
        block_asm.emit(BlockInst::MrsCpsr(backed_up_cpsr_reg));
        let breakout_label = block_asm.new_label();
        block_asm.emit(BlockInst::FlushCycles {
            total_cycles: total_cycles_reg,
            target_pre_cycle_count_sum: target_pre_cycle_count_sum_reg,
            check_scheduler: self.cpu == CpuType::ARM9,
            breakout: breakout_label,
        });
        block_asm.emit(BlockInst::MsrCpsr(backed_up_cpsr_reg));
        block_asm.emit(BlockInst::GuestBranch { cond: Cond::AL, target: target & !1u32 });
        block_asm.emit(BlockInst::Label { label: breakout_label, unlikely: true });
        block_asm.emit(BlockInst::MsrCpsr(backed_up_cpsr_reg));
        block_asm.emit(BlockInst::Mov { dst: BlockReg::Guest(Reg::PC), src: BlockOperand::Imm(target) });
        block_asm.emit(BlockInst::SaveContext);
        if self.cpu == CpuType::ARM7 {
            block_asm.emit(BlockInst::BranchOutMetadata { idle_loop: false, count_cycles: false });
            block_asm.emit(BlockInst::Epilogue);
        }
        block_asm.free_reg(backed_up_cpsr_reg);
        block_asm.free_reg(target_pre_cycle_count_sum_reg);
        block_asm.free_reg(total_cycles_reg);
        proof {
            assert(block_asm.insts@ =~= old(block_asm).insts@ + old(self).label_info_seq(JitBranchInfo::Local(target_index), target,
                old(block_asm).live@.len() as u16, old(block_asm).label_count));
        }
    }

    fn emit_branch_idle(&mut self, block_asm: &mut BlockAsm, jump_to_index: usize, target: u32)
        requires
            old(self).jit_buf.wf(),
            jump_to_index < old(self).jit_buf.insts@.len(),
        ensures
            *final(self) == *old(self),
            final(block_asm).insts@ == old(block_asm).insts@ + old(self).label_info_seq(JitBranchInfo::Idle(jump_to_index), target,
                old(block_asm).live@.len() as u16, old(block_asm).label_count),
            final(block_asm).live == old(block_asm).live,
            final(block_asm).label_count == old(block_asm).label_count,
    {
        block_asm.emit(BlockInst::Mov { dst: BlockReg::Guest(Reg::PC), src: BlockOperand::Imm(target) });
        block_asm.emit(BlockInst::SaveContext);
        match self.cpu {
            CpuType::ARM9 => {
                proof {
                    assert(self.jit_buf.insts_cycle_counts@[jump_to_index as int] == cycle_sum(self.jit_buf.insts@, jump_to_index + 1));
                    crate::jit_asm::lemma_cycle_sum_nonneg(self.jit_buf.insts@, jump_to_index as int);
                }
                let target_pre_cycle_count_sum = self.jit_buf.insts_cycle_counts[jump_to_index] - self.jit_buf.insts[jump_to_index].cycle as u16;
                block_asm.emit(BlockInst::Call2 {
                    func: CallTarget::IdleLoop { hle: self.arm7_hle },
                    a0: BlockOperand::Imm(self.self_addr),
                    a1: BlockOperand::Imm(target_pre_cycle_count_sum as u32),
                });
                block_asm.emit(BlockInst::RestoreReg(Reg::CPSR));
                block_asm.emit(BlockInst::GuestBranch { cond: Cond::AL, target: target & !1u32 });
            },
            CpuType::ARM7 => {
                block_asm.emit(BlockInst::BranchOutMetadata { idle_loop: true, count_cycles: true });
                block_asm.emit(BlockInst::Epilogue);
            },
        }
        proof {
            assert(block_asm.insts@ =~= old(block_asm).insts@ + old(self).label_info_seq(JitBranchInfo::Idle(jump_to_index), target,
                old(block_asm).live@.len() as u16, old(block_asm).label_count));
        }
    }

    /// Emits a branch or call to the label of the current instruction.
    #[verifier::rlimit(40)]
    pub fn emit_branch_label(&mut self, block_asm: &mut BlockAsm)
        requires
            old(self).emit_ok(old(block_asm), 3, 1),
            old(self).jit_buf.current_pc + 4 <= u32::MAX,
            old(self).jit_buf.spec_current_inst().operands[0] is Imm,
        ensures
            *final(self) == *old(self),
            ({
                let inst = old(self).jit_buf.spec_current_inst();
                let target = branch_target(old(self).jit_buf.current_pc, inst.operands[0]->Imm_0);
                final(block_asm).insts@ == old(block_asm).insts@ + if inst.op == Op::Bl {
                    seq![BlockInst::Mov { dst: BlockReg::Guest(Reg::LR), src: BlockOperand::Imm((old(self).jit_buf.current_pc + 4) as u32) }]
                        + old(self).external_label_seq(target, true, false, old(block_asm).live@.len() as u16)
                } else {
                    old(self).label_common_seq(target, inst.cond, false, old(block_asm).live@.len() as u16, old(block_asm).label_count)
                }
            }),
            final(block_asm).released_since(old(block_asm)),
    {
        let inst_info = self.jit_buf.current_inst();
        let op = inst_info.op;
        let imm = match inst_info.operands[0] {
            crate::inst_info::Operand::Imm(v) => v,
            _ => 0,
        };
        let target_pc = self.jit_buf.current_pc.wrapping_add(imm).wrapping_add(8);
        proof {
            assert(target_pc == branch_target(self.jit_buf.current_pc, imm));
        }
        if op == Op::Bl {
            block_asm.emit(BlockInst::Mov { dst: BlockReg::Guest(Reg::LR), src: BlockOperand::Imm(self.jit_buf.current_pc + 4) });
            self.emit_branch_external_label(block_asm, target_pc, true, false);
            proof {
                assert(block_asm.insts@ =~= old(block_asm).insts@ + seq![BlockInst::Mov { dst: BlockReg::Guest(Reg::LR), src: BlockOperand::Imm((old(self).jit_buf.current_pc + 4) as u32) }]
                    + old(self).external_label_seq(target_pc, true, false, old(block_asm).live@.len() as u16));
            }
        } else {
            self.emit_branch_label_common(block_asm, target_pc, inst_info.cond, false);
        }
    }

    /// Emits a branch to the guest address in the current instruction's
    /// register: through the return-address stack when that register is LR.
    pub fn emit_bx(&mut self, block_asm: &mut BlockAsm)
        requires
            old(self).emit_ok(old(block_asm), 2, 0),
            old(self).jit_buf.current_pc + 4 <= u32::MAX,
            old(self).jit_buf.spec_current_inst().operands[0].spec_as_reg_no_shift() is Some,
        ensures
            *final(self) == *old(self),
            ({
                let reg = old(self).jit_buf.spec_current_inst().operands[0].spec_as_reg_no_shift()->0;
                final(block_asm).insts@ == old(block_asm).insts@ + if reg == Reg::LR {
                    seq![
                        BlockInst::Mov { dst: BlockReg::Guest(Reg::PC), src: BlockOperand::Reg(BlockReg::Guest(Reg::LR)) },
                        BlockInst::SaveContext,
                        BlockInst::CallBranchReturnStack {
                            total_cycles: old(self).jit_buf.spec_current_cycles(),
                            target: BlockReg::Guest(Reg::LR),
                            current_pc: old(self).jit_buf.current_pc,
                        },
                        BlockInst::EpiloguePreviousBlock,
                    ]
                } else {
                    old(self).reg_branch_seq(BlockReg::Guest(reg), false, false, old(block_asm).live@.len() as u16)
                }
            }),
            final(block_asm).released_since(old(block_asm)),
            final(block_asm).label_count == old(block_asm).label_count,
    {
        let inst_info = self.jit_buf.current_inst();
        let target_pc_reg = match inst_info.operands[0].as_reg_no_shift() {
            Some(r) => r,
            None => Reg::R0,
        };
        if target_pc_reg == Reg::LR {
            block_asm.emit(BlockInst::Mov { dst: BlockReg::Guest(Reg::PC), src: BlockOperand::Reg(BlockReg::Guest(target_pc_reg)) });
            block_asm.emit(BlockInst::SaveContext);
            self.emit_branch_return_stack_common(block_asm, BlockReg::Guest(target_pc_reg));
            proof {
                assert(block_asm.insts@ =~= old(block_asm).insts@ + seq![
                    BlockInst::Mov { dst: BlockReg::Guest(Reg::PC), src: BlockOperand::Reg(BlockReg::Guest(Reg::LR)) },
                    BlockInst::SaveContext,
                    BlockInst::CallBranchReturnStack {
                        total_cycles: old(self).jit_buf.spec_current_cycles(),
                        target: BlockReg::Guest(Reg::LR),
                        current_pc: old(self).jit_buf.current_pc,
                    },
                    BlockInst::EpiloguePreviousBlock,
                ]);
            }
        } else {
            self.emit_branch_reg_common(block_asm, BlockReg::Guest(target_pc_reg), false, false);
        }
    }

    /// Emits a call to the guest address in the current instruction's register.
    #[verifier::rlimit(40)]
    pub fn emit_blx(&mut self, block_asm: &mut BlockAsm)
        requires
            old(self).emit_ok(old(block_asm), 3, 0),
            old(self).jit_buf.current_pc + 4 <= u32::MAX,
            old(self).jit_buf.spec_current_inst().operands[0].spec_as_reg_no_shift() is Some,
        ensures
            *final(self) == *old(self),
            ({
                let reg = old(self).jit_buf.spec_current_inst().operands[0].spec_as_reg_no_shift()->0;
                let r0 = old(block_asm).live@.len() as u16;
                final(block_asm).insts@ == old(block_asm).insts@ + seq![
                    BlockInst::Mov { dst: BlockReg::Any(r0), src: BlockOperand::Reg(BlockReg::Guest(reg)) },
                    BlockInst::Mov { dst: BlockReg::Guest(Reg::LR), src: BlockOperand::Imm((old(self).jit_buf.current_pc + 4) as u32) },
                ] + old(self).reg_branch_seq(BlockReg::Any(r0), true, false, (r0 + 1) as u16)
            }),
            final(block_asm).released_since(old(block_asm)),
            final(block_asm).label_count == old(block_asm).label_count,
    {
        let inst_info = self.jit_buf.current_inst();
        let op0 = match inst_info.operands[0].as_reg_no_shift() {
            Some(r) => r,
            None => Reg::R0,
        };
        let target_pc_reg = block_asm.new_reg();
        block_asm.emit(BlockInst::Mov { dst: target_pc_reg, src: BlockOperand::Reg(BlockReg::Guest(op0)) });
        block_asm.emit(BlockInst::Mov { dst: BlockReg::Guest(Reg::LR), src: BlockOperand::Imm(self.jit_buf.current_pc + 4) });
        self.emit_branch_reg_common(block_asm, target_pc_reg, true, false);
        block_asm.free_reg(target_pc_reg);
        proof {
            let r0 = old(block_asm).live@.len() as u16;
            assert(block_asm.insts@ =~= old(block_asm).insts@ + seq![
                BlockInst::Mov { dst: BlockReg::Any(r0), src: BlockOperand::Reg(BlockReg::Guest(op0)) },
                BlockInst::Mov { dst: BlockReg::Guest(Reg::LR), src: BlockOperand::Imm((old(self).jit_buf.current_pc + 4) as u32) },
            ] + old(self).reg_branch_seq(BlockReg::Any(r0), true, false, (r0 + 1) as u16));
        }
    }

    /// Emits a call that switches to Thumb code at the current instruction's
    /// label; only the first CPU has it, the second emits nothing.
    #[verifier::rlimit(40)]
    pub fn emit_blx_label(&mut self, block_asm: &mut BlockAsm)
        requires
            old(self).emit_ok(old(block_asm), 2, 0),
            old(self).jit_buf.current_pc + 4 <= u32::MAX,
            old(self).jit_buf.spec_current_inst().operands[0] is Imm,
        ensures
            *final(self) == *old(self),
            ({
                let inst = old(self).jit_buf.spec_current_inst();
                let target = branch_target(old(self).jit_buf.current_pc, inst.operands[0]->Imm_0);
                final(block_asm).insts@ == old(block_asm).insts@ + if old(self).cpu == CpuType::ARM9 {
                    seq![BlockInst::Mov { dst: BlockReg::Guest(Reg::LR), src: BlockOperand::Imm((old(self).jit_buf.current_pc + 4) as u32) }]
                        + old(self).external_label_seq(target | 1u32, true, false, old(block_asm).live@.len() as u16)
                } else {
                    Seq::empty()
                }
            }),
            final(block_asm).released_since(old(block_asm)),
            final(block_asm).label_count == old(block_asm).label_count,
    {
        if self.cpu != CpuType::ARM9 {
            proof {
                assert(block_asm.insts@ =~= old(block_asm).insts@ + Seq::<BlockInst>::empty());
            }
            return;
        }
        let imm = match self.jit_buf.current_inst().operands[0] {
            crate::inst_info::Operand::Imm(v) => v,
            _ => 0,
        };
        let target_pc = self.jit_buf.current_pc.wrapping_add(imm).wrapping_add(8);
        block_asm.emit(BlockInst::Mov { dst: BlockReg::Guest(Reg::LR), src: BlockOperand::Imm(self.jit_buf.current_pc + 4) });
        self.emit_branch_external_label(block_asm, target_pc | 1, true, false);
        proof {
            assert(block_asm.insts@ =~= old(block_asm).insts@ + seq![BlockInst::Mov { dst: BlockReg::Guest(Reg::LR), src: BlockOperand::Imm((old(self).jit_buf.current_pc + 4) as u32) }]
                + old(self).external_label_seq(target_pc | 1u32, true, false, old(block_asm).live@.len() as u16));
        }
    }
}

} // verus!

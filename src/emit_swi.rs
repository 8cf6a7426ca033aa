use vstd::prelude::*;
use crate::block_asm::{BlockAsm, BlockInst, BlockOperand, CallTarget};
use crate::jit_asm::JitAsm;
use crate::reg::Reg;

verus! {

/// Guest address of the software-interrupt exception vector.
pub const SOFTWARE_INTERRUPT_VECTOR: u32 = 0x8;

impl JitAsm {
    /// Emits a software interrupt: the guest context is saved, the exception
    /// handler runs with the instruction's encoding, the vector, the guest
    /// address and the cycles so far, and the registers it may change are
    /// reloaded.
    pub fn emit_swi(&mut self, block_asm: &mut BlockAsm, thumb: bool)
        requires
            old(self).jit_buf.wf(),
        ensures
            *final(self) == *old(self),
            final(block_asm).insts@ == old(block_asm).insts@ + seq![
                BlockInst::SaveContext,
                BlockInst::Call4 {
                    func: CallTarget::Exception { cpu: old(self).cpu, thumb },
                    a0: BlockOperand::Imm(old(self).jit_buf.spec_current_inst().opcode),
                    a1: BlockOperand::Imm(SOFTWARE_INTERRUPT_VECTOR),
                    a2: BlockOperand::Imm(old(self).jit_buf.current_pc),
                    a3: BlockOperand::Imm(old(self).jit_buf.spec_current_cycles() as u32),
                },
                BlockInst::RestoreReg(Reg::R0),
                BlockInst::RestoreReg(Reg::R1),
                BlockInst::RestoreReg(Reg::R3),
                BlockInst::RestoreReg(Reg::CPSR),
            ],
            final(block_asm).live == old(block_asm).live,
            final(block_asm).label_count == old(block_asm).label_count,
    {
        block_asm.emit(BlockInst::SaveContext);
        block_asm.emit(BlockInst::Call4 {
            func: CallTarget::Exception { cpu: self.cpu, thumb },
            a0: BlockOperand::Imm(self.jit_buf.current_inst().opcode),
            a1: BlockOperand::Imm(SOFTWARE_INTERRUPT_VECTOR),
            a2: BlockOperand::Imm(self.jit_buf.current_pc),
            a3: BlockOperand::Imm(self.jit_buf.insts_cycle_counts[self.jit_buf.current_index] as u32),
        });
        block_asm.emit(BlockInst::RestoreReg(Reg::R0));
        block_asm.emit(BlockInst::RestoreReg(Reg::R1));
        block_asm.emit(BlockInst::RestoreReg(Reg::R3));
        block_asm.emit(BlockInst::RestoreReg(Reg::CPSR));
        proof {
            assert(block_asm.insts@ =~= old(block_asm).insts@ + seq![
                BlockInst::SaveContext,
                BlockInst::Call4 {
                    func: CallTarget::Exception { cpu: old(self).cpu, thumb },
                    a0: BlockOperand::Imm(old(self).jit_buf.spec_current_inst().opcode),
                    a1: BlockOperand::Imm(SOFTWARE_INTERRUPT_VECTOR),
                    a2: BlockOperand::Imm(old(self).jit_buf.current_pc),
                    a3: BlockOperand::Imm(old(self).jit_buf.spec_current_cycles() as u32),
                },
                BlockInst::RestoreReg(Reg::R0),
                BlockInst::RestoreReg(Reg::R1),
                BlockInst::RestoreReg(Reg::R3),
                BlockInst::RestoreReg(Reg::CPSR),
            ]);
        }
    }
}

} // verus!

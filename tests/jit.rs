use dsvita::block_asm::{BlockAsm, BlockInst, BlockOperand, BlockReg, CallTarget};
use dsvita::cpu::CpuType;
use dsvita::emit_branch::JitBranchInfo;
use dsvita::emit_swi::SOFTWARE_INTERRUPT_VECTOR;
use dsvita::emit_transfer::{assemble_rlist, multiple_params};
use dsvita::emu::Emu;
use dsvita::inst_info::{Cond, InstInfo, MemoryAmount, MultipleTransfer, Op, Operand, SingleTransfer};
use dsvita::jit_asm::{align_guest_pc, JitAsm, JitBuf};
use dsvita::reg::{Reg, RegReserve};

fn bit(r: u32) -> u32 {
    1 << r
}

fn inst(op: Op, cond: Cond, src: u32, out: u32) -> InstInfo {
    InstInfo {
        opcode: 0,
        op,
        cond,
        operands: [Operand::Empty, Operand::Empty, Operand::Empty],
        src_regs: RegReserve(src),
        out_regs: RegReserve(out),
        cycle: 1,
    }
}

fn reg_op(r: Reg) -> Operand {
    Operand::Reg { reg: r, shift: None }
}

fn mov_imm(rd: u32) -> InstInfo {
    inst(Op::Mov, Cond::AL, 0, bit(rd))
}

fn subs(rd: u32, rn: u32) -> InstInfo {
    inst(Op::Subs, Cond::AL, bit(rn), bit(rd) | bit(16))
}

fn bne() -> InstInfo {
    inst(Op::B, Cond::NE, bit(16), bit(15))
}

fn store() -> InstInfo {
    let t = SingleTransfer { amount: MemoryAmount::Word, signed: false, pre: true, write_back: false, sub: false };
    inst(Op::Str(t), Cond::AL, bit(0) | bit(1), 0)
}

fn jit(cpu: CpuType, insts: Vec<InstInfo>, index: usize, pc: u32) -> JitAsm {
    let emu = Emu::new(0x4000_0000, 0x5000_0000, 0x6000_0000);
    let mut compiler = JitAsm::new(&emu, cpu, false, 0x7000_0000, 0x7100_0000, 0x7200_0000);
    let mut sums = Vec::new();
    let mut total: u16 = 0;
    for i in &insts {
        total += i.cycle as u16;
        sums.push(total);
    }
    compiler.jit_buf = JitBuf { insts, insts_cycle_counts: sums, current_index: index, current_pc: pc };
    compiler
}

fn all_released(b: &BlockAsm) -> bool {
    b.live.iter().all(|l| !l)
}

#[test]
fn counter_loop_follows_the_scan_rule() {
    // The counter is written before it is read within the span.
    assert!(JitAsm::is_idle_loop(&[mov_imm(0), subs(0, 0), bne()]));
}

#[test]
fn span_with_store_is_not_idle() {
    assert!(!JitAsm::is_idle_loop(&[mov_imm(0), store(), subs(0, 0), bne()]));
}

#[test]
fn span_with_embedded_branch_is_not_idle() {
    assert!(!JitAsm::is_idle_loop(&[mov_imm(0), bne(), subs(0, 0), bne()]));
}

#[test]
fn span_with_system_call_is_not_idle() {
    assert!(!JitAsm::is_idle_loop(&[inst(Op::Swi, Cond::AL, 0, 0), bne()]));
}

#[test]
fn read_before_write_of_same_register_is_not_idle() {
    // MOV R1, R1 reads R1 before the span wrote it, then writes it.
    let mov_self = inst(Op::Mov, Cond::AL, bit(1), bit(1));
    assert!(!JitAsm::is_idle_loop(&[mov_self, mov_self, bne()]));
}

#[test]
fn compare_and_branch_spin_is_idle() {
    let cmp = inst(Op::Cmp, Cond::AL, bit(0), bit(16));
    assert!(JitAsm::is_idle_loop(&[cmp, bne()]));
    assert!(JitAsm::is_idle_loop(&[]));
}

#[test]
fn analyze_classifies_idle_local_and_external() {
    let cmp = inst(Op::Cmp, Cond::AL, bit(0), bit(16));
    let insts = vec![mov_imm(2), cmp, bne()];
    // BNE at 0x2008 back to 0x2004.
    assert_eq!(JitAsm::analyze_branch_label(&insts, 2, Cond::NE, 0x2008, 0x2004, false), JitBranchInfo::Idle(1));
    // Unconditional back branch is a local jump.
    assert_eq!(JitAsm::analyze_branch_label(&insts, 2, Cond::AL, 0x2008, 0x2000, false), JitBranchInfo::Local(0));
    // Back branch over a store is a local jump.
    let insts2 = vec![store(), cmp, bne()];
    assert_eq!(JitAsm::analyze_branch_label(&insts2, 2, Cond::NE, 0x2008, 0x2000, false), JitBranchInfo::Local(0));
    // Out of the block either way.
    assert_eq!(JitAsm::analyze_branch_label(&insts, 2, Cond::NE, 0x2008, 0x2010, false), JitBranchInfo::External);
    assert_eq!(JitAsm::analyze_branch_label(&insts, 0, Cond::NE, 0x2000, 0x1FFC, false), JitBranchInfo::External);
    // A conditional branch to itself over an idle span is an idle loop.
    assert_eq!(JitAsm::analyze_branch_label(&insts, 2, Cond::NE, 0x2008, 0x2008, false), JitBranchInfo::Idle(2));
    assert_eq!(JitAsm::analyze_branch_label(&insts, 2, Cond::AL, 0x2008, 0x2008, false), JitBranchInfo::Local(2));
    // Thumb steps are two bytes; bit 0 of the target is ignored.
    assert_eq!(JitAsm::analyze_branch_label(&insts, 0, Cond::AL, 0x2000, 0x2005, true), JitBranchInfo::Local(2));
}

#[test]
fn align_guest_pc_by_mode() {
    assert_eq!(align_guest_pc(0x2003), 0x2002);
    assert_eq!(align_guest_pc(0x2006), 0x2004);
}

#[test]
fn swi_calls_the_exception_handler() {
    let mut s = inst(Op::Swi, Cond::AL, 0, 0);
    s.opcode = 0xEF00_0005;
    let mut compiler = jit(CpuType::ARM9, vec![mov_imm(0), s], 1, 0x2004);
    let mut b = BlockAsm::new();
    compiler.emit_swi(&mut b, false);
    assert_eq!(b.insts.len(), 6);
    assert_eq!(b.insts[0], BlockInst::SaveContext);
    assert_eq!(
        b.insts[1],
        BlockInst::Call4 {
            func: CallTarget::Exception { cpu: CpuType::ARM9, thumb: false },
            a0: BlockOperand::Imm(0xEF00_0005),
            a1: BlockOperand::Imm(SOFTWARE_INTERRUPT_VECTOR),
            a2: BlockOperand::Imm(0x2004),
            a3: BlockOperand::Imm(2),
        }
    );
    assert_eq!(b.insts[5], BlockInst::RestoreReg(Reg::CPSR));
}

#[test]
fn local_branch_charges_cycles_up_to_target() {
    let mut b_inst = inst(Op::B, Cond::AL, 0, bit(15));
    b_inst.operands[0] = Operand::Imm((-12i32) as u32);
    let mut insts = vec![mov_imm(0), mov_imm(1), b_inst];
    insts[0].cycle = 3;
    let mut compiler = jit(CpuType::ARM9, insts, 2, 0x2008);
    let mut b = BlockAsm::new();
    compiler.emit_branch_label(&mut b);
    assert!(all_released(&b));
    assert_eq!(b.label_count, 1);
    assert_eq!(b.insts[0], BlockInst::Mov { dst: BlockReg::Any(0), src: BlockOperand::Imm(5) });
    assert_eq!(b.insts[1], BlockInst::Mov { dst: BlockReg::Any(1), src: BlockOperand::Imm(3) });
    assert_eq!(b.insts[5], BlockInst::GuestBranch { cond: Cond::AL, target: 0x2004 });
    // The first CPU's flush returns to the scheduler itself after the breakout.
    assert_eq!(b.insts.len(), 10);
    assert_eq!(b.insts[9], BlockInst::SaveContext);
}

#[test]
fn local_branch_breakout_leaves_block_on_second_cpu() {
    let mut b_inst = inst(Op::B, Cond::AL, 0, bit(15));
    b_inst.operands[0] = Operand::Imm((-12i32) as u32);
    let mut compiler = jit(CpuType::ARM7, vec![mov_imm(0), mov_imm(1), b_inst], 2, 0x2008);
    let mut b = BlockAsm::new();
    compiler.emit_branch_label(&mut b);
    assert_eq!(b.insts.len(), 12);
    assert_eq!(b.insts[10], BlockInst::BranchOutMetadata { idle_loop: false, count_cycles: false });
    assert_eq!(b.insts[11], BlockInst::Epilogue);
    assert!(all_released(&b));
}

#[test]
fn idle_branch_calls_the_idle_handler() {
    let cmp = inst(Op::Cmp, Cond::AL, bit(0), bit(16));
    let mut b_inst = bne();
    b_inst.operands[0] = Operand::Imm((-12i32) as u32);
    let mut compiler = jit(CpuType::ARM9, vec![mov_imm(2), cmp, b_inst], 2, 0x2008);
    let mut b = BlockAsm::new();
    compiler.emit_branch_label(&mut b);
    assert_eq!(b.insts[0], BlockInst::Mov { dst: BlockReg::Guest(Reg::PC), src: BlockOperand::Imm(0x2004) });
    assert_eq!(
        b.insts[2],
        BlockInst::Call2 { func: CallTarget::IdleLoop { hle: false }, a0: BlockOperand::Imm(0x7200_0000), a1: BlockOperand::Imm(1) }
    );
    assert_eq!(b.label_count, 0);
}

#[test]
fn call_out_of_block_sets_link_register() {
    let mut bl = inst(Op::Bl, Cond::AL, 0, bit(14) | bit(15));
    bl.operands[0] = Operand::Imm(0x100);
    let mut compiler = jit(CpuType::ARM9, vec![mov_imm(0), bl, mov_imm(1)], 1, 0x2004);
    let mut b = BlockAsm::new();
    compiler.emit_branch_label(&mut b);
    assert_eq!(b.insts[0], BlockInst::Mov { dst: BlockReg::Guest(Reg::LR), src: BlockOperand::Imm(0x2008) });
    assert_eq!(b.insts[1], BlockInst::Mov { dst: BlockReg::Guest(Reg::PC), src: BlockOperand::Imm(0x210C) });
    // Not the last instruction: the whole context is reloaded.
    assert_eq!(b.insts.len(), 4 + 16);
    assert!(all_released(&b));
}

#[test]
fn bx_lr_returns_through_the_stack() {
    let mut bx = inst(Op::Bx, Cond::AL, bit(14), bit(15));
    bx.operands[0] = reg_op(Reg::LR);
    let mut compiler = jit(CpuType::ARM7, vec![bx], 0, 0x3000);
    let mut b = BlockAsm::new();
    compiler.emit_bx(&mut b);
    assert_eq!(
        b.insts[2],
        BlockInst::CallBranchReturnStack { total_cycles: 1, target: BlockReg::Guest(Reg::LR), current_pc: 0x3000 }
    );
    assert_eq!(b.insts[3], BlockInst::EpiloguePreviousBlock);
}

#[test]
fn blx_as_last_instruction_chains_to_next_block() {
    let mut blx = inst(Op::BlxReg, Cond::AL, bit(3), bit(14) | bit(15));
    blx.operands[0] = reg_op(Reg::R3);
    let mut compiler = jit(CpuType::ARM9, vec![blx], 0, 0x3000);
    let mut b = BlockAsm::new();
    compiler.emit_blx(&mut b);
    assert!(b.insts.contains(&BlockInst::CallJitAddrImm { target_pc: 0x3004, has_return: true }));
    assert!(all_released(&b));
}

#[test]
fn blx_label_only_on_first_cpu() {
    let mut blx = inst(Op::BlxLabel, Cond::AL, 0, bit(14) | bit(15));
    blx.operands[0] = Operand::Imm(0x10);
    let mut compiler7 = jit(CpuType::ARM7, vec![blx], 0, 0x3000);
    let mut b = BlockAsm::new();
    compiler7.emit_blx_label(&mut b);
    assert!(b.insts.is_empty());
    let mut compiler9 = jit(CpuType::ARM9, vec![blx], 0, 0x3000);
    compiler9.emit_blx_label(&mut b);
    assert_eq!(b.insts[1], BlockInst::Mov { dst: BlockReg::Guest(Reg::PC), src: BlockOperand::Imm(0x3019) });
}

#[test]
fn word_load_uses_fast_and_slow_paths() {
    let t = SingleTransfer { amount: MemoryAmount::Word, signed: false, pre: true, write_back: false, sub: false };
    let mut ldr = inst(Op::Ldr(t), Cond::AL, bit(1), bit(0));
    ldr.operands = [reg_op(Reg::R0), reg_op(Reg::R1), Operand::Imm(8)];
    let mut compiler = jit(CpuType::ARM9, vec![ldr], 0, 0x2000);
    let mut b = BlockAsm::new();
    compiler.emit_single_read(&mut b);
    assert!(all_released(&b));
    assert_eq!(b.insts[0], BlockInst::Add { dst: BlockReg::Any(0), lhs: BlockReg::Guest(Reg::R1), rhs: BlockOperand::Imm(8) });
    assert_eq!(b.insts[2], BlockInst::Bic { dst: BlockReg::Any(3), lhs: BlockReg::Any(0), rhs: BlockOperand::Imm(0xF000_0003) });
    assert!(b.insts.iter().any(|i| matches!(i, BlockInst::TransferRead { base: 0x5000_0000, amount: MemoryAmount::Word, .. })));
    assert!(b.insts.iter().any(|i| matches!(i,
        BlockInst::Call4 { func: CallTarget::MemHandler { write: false, amount: MemoryAmount::Word, signed: false, .. }, a1: BlockOperand::Reg(BlockReg::Any(4)), .. })));
    assert!(b.insts.contains(&BlockInst::Mov { dst: BlockReg::Any(4), src: BlockOperand::Imm(0x7000_0000) }));
}

#[test]
fn double_word_load_splits_into_two_words() {
    let t = SingleTransfer { amount: MemoryAmount::Double, signed: false, pre: true, write_back: false, sub: false };
    let mut ldrd = inst(Op::Ldr(t), Cond::AL, bit(1), bit(2) | bit(3));
    ldrd.operands = [reg_op(Reg::R2), reg_op(Reg::R1), Operand::Empty];
    let mut compiler = jit(CpuType::ARM9, vec![ldrd], 0, 0x1000);
    let mut b = BlockAsm::new();
    compiler.emit_single_read(&mut b);
    let reads: Vec<&BlockInst> = b.insts.iter().filter(|i| matches!(i, BlockInst::TransferRead { .. })).collect();
    assert_eq!(reads.len(), 2);
    assert!(reads.iter().all(|i| matches!(i, BlockInst::TransferRead { amount: MemoryAmount::Word, base: 0x5000_0000, .. })));
    assert!(b.insts.contains(&BlockInst::Add { dst: BlockReg::Any(2), lhs: BlockReg::Any(0), rhs: BlockOperand::Imm(4) }));
    assert!(b.insts.contains(&BlockInst::MarkRegDirty { reg: Reg::R3, dirty: true }));
    assert!(all_released(&b));
}

#[test]
fn store_of_pc_adds_pipeline_offset_and_ends_block_on_slow_path() {
    let t = SingleTransfer { amount: MemoryAmount::Byte, signed: false, pre: false, write_back: true, sub: true };
    let mut strb = inst(Op::Str(t), Cond::AL, bit(15) | bit(1), bit(1));
    strb.opcode = 0xE441_F004;
    strb.operands = [reg_op(Reg::PC), reg_op(Reg::R1), Operand::Imm(4)];
    let mut compiler = jit(CpuType::ARM9, vec![strb], 0, 0x2000);
    let mut b = BlockAsm::new();
    compiler.emit_single_write(&mut b);
    assert_eq!(b.insts[0], BlockInst::Sub { dst: BlockReg::Any(0), lhs: BlockReg::Guest(Reg::R1), rhs: BlockOperand::Imm(4) });
    assert_eq!(b.insts[1], BlockInst::Mov { dst: BlockReg::Any(1), src: BlockOperand::Reg(BlockReg::Guest(Reg::R1)) });
    assert_eq!(b.insts[3], BlockInst::Mov { dst: BlockReg::Guest(Reg::R1), src: BlockOperand::Reg(BlockReg::Any(0)) });
    assert_eq!(b.insts[4], BlockInst::Add { dst: BlockReg::Any(2), lhs: BlockReg::Any(2), rhs: BlockOperand::Imm(4) });
    assert!(b.insts.contains(&BlockInst::Bic { dst: BlockReg::Any(5), lhs: BlockReg::Any(1), rhs: BlockOperand::Imm(0xF000_0000) }));
    assert!(b.insts.contains(&BlockInst::GenericData(0xE441_F004)));
    assert!(b.insts.contains(&BlockInst::ForceEnd));
    assert!(b.insts.iter().any(|i| matches!(i, BlockInst::Call4 { a3: BlockOperand::Imm(0x000F_0001), .. })));
    assert!(all_released(&b));
}

#[test]
fn swap_reads_then_writes() {
    let mut swp = inst(Op::Swpb, Cond::AL, bit(1) | bit(2), bit(0));
    swp.operands = [reg_op(Reg::R0), reg_op(Reg::R1), reg_op(Reg::R2)];
    let mut compiler = jit(CpuType::ARM7, vec![swp], 0, 0x2000);
    let mut b = BlockAsm::new();
    compiler.emit_swp(&mut b);
    let first_read = b.insts.iter().position(|i| matches!(i, BlockInst::TransferRead { amount: MemoryAmount::Byte, .. })).unwrap();
    let first_write = b.insts.iter().position(|i| matches!(i, BlockInst::TransferWrite { amount: MemoryAmount::Byte, .. })).unwrap();
    assert!(first_read < first_write);
    assert_eq!(b.label_count, 5);
    assert!(all_released(&b));
}

#[test]
fn rlist_assembly_pairs_stand_ins() {
    let (gp, fixed, maps) = assemble_rlist(RegReserve(bit(0) | bit(1) | bit(14)));
    assert_eq!(gp, RegReserve(bit(0) | bit(1)));
    assert_eq!(maps, vec![(Reg::LR, Reg::R2)]);
    assert_eq!(fixed, RegReserve(bit(2)));
    let (gp, fixed, maps) = assemble_rlist(RegReserve(0));
    assert_eq!((gp, fixed, maps.len()), (RegReserve(0), RegReserve(0), 0));
    // R12 leaves no free register above it: it becomes a stand-in case too.
    let (gp, _, maps) = assemble_rlist(RegReserve(bit(12) | bit(15)));
    assert_eq!(gp, RegReserve(0));
    assert_eq!(maps, vec![(Reg::R12, Reg::R0), (Reg::PC, Reg::R1)]);
    // Stand-ins lie above every directly moved register.
    let (gp, fixed, maps) = assemble_rlist(RegReserve(bit(0) | bit(3) | bit(13) | bit(14)));
    assert_eq!(gp, RegReserve(bit(0) | bit(3)));
    assert_eq!(fixed, RegReserve(bit(4) | bit(5)));
    assert_eq!(maps, vec![(Reg::SP, Reg::R4), (Reg::LR, Reg::R5)]);
}

#[test]
fn multiple_params_packing() {
    assert_eq!(multiple_params(0x8003, 3, 13, true, false), 0x8003 | (3 << 16) | (13 << 20) | (1 << 24));
    assert_eq!(multiple_params(0x1_0001, 1, 0, false, true), 0x0001 | (1 << 16) | (1 << 25));
    // Sixteen registers leave 0 in the 4-bit length field.
    assert_eq!(multiple_params(0xFFFF, 16, 2, false, false), 0xFFFF | (2 << 20));
}

#[test]
fn block_transfer_with_written_back_base_in_list_takes_slow_path() {
    let m = MultipleTransfer { pre: true, write_back: true, decrement: true, user: false };
    let mut stm = inst(Op::Stm(m), Cond::AL, bit(0) | bit(13), bit(13));
    stm.opcode = (bit(0) | bit(13)) as u32;
    stm.operands[0] = reg_op(Reg::SP);
    let mut compiler = jit(CpuType::ARM9, vec![stm], 0, 0x2000);
    let mut b = BlockAsm::new();
    compiler.emit_multiple_transfer(&mut b, false);
    assert_eq!(b.insts[0], BlockInst::SaveContext);
    assert_eq!(
        b.insts[1],
        BlockInst::Call3 {
            func: CallTarget::MemMultipleHandler { cpu: CpuType::ARM9, write: true, write_back: true, decrement: true },
            a0: BlockOperand::Imm(0x2001 | (2 << 16) | (13 << 20)),
            a1: BlockOperand::Imm(0x2000),
            a2: BlockOperand::Imm(1),
        }
    );
    assert_eq!(b.insts[2], BlockInst::RestoreReg(Reg::SP));
    assert_eq!(b.insts.len(), 4);
    assert!(all_released(&b));
}

#[test]
fn block_load_uses_fast_path_and_marks_registers() {
    let m = MultipleTransfer { pre: false, write_back: true, decrement: false, user: false };
    let mut ldm = inst(Op::Ldm(m), Cond::AL, bit(4), bit(0) | bit(1) | bit(15));
    ldm.opcode = bit(0) | bit(1) | bit(15);
    ldm.operands[0] = reg_op(Reg::R4);
    let mut compiler = jit(CpuType::ARM7, vec![ldm], 0, 0x2000);
    let mut b = BlockAsm::new();
    compiler.emit_multiple_transfer(&mut b, false);
    assert_eq!(b.insts[0], BlockInst::Branch { label: 0, cond: Cond::NV });
    assert!(b.insts.iter().any(|i| matches!(i, BlockInst::GuestTransferReadMultiple { .. })));
    assert!(b.insts.contains(&BlockInst::Mov { dst: BlockReg::Guest(Reg::PC), src: BlockOperand::Reg(BlockReg::Fixed(Reg::R2)) }));
    assert!(b.insts.contains(&BlockInst::MarkRegDirty { reg: Reg::PC, dirty: true }));
    assert!(b.insts.contains(&BlockInst::RestoreReg(Reg::R4)));
    assert_eq!(b.label_count, 3);
    assert!(all_released(&b));
}

#[test]
fn block_load_slow_path_also_marks_registers_dirty() {
    let m = MultipleTransfer { pre: false, write_back: false, decrement: false, user: false };
    let mut ldm = inst(Op::Ldm(m), Cond::AL, bit(4), bit(0) | bit(1));
    ldm.opcode = bit(0) | bit(1);
    ldm.operands[0] = reg_op(Reg::R4);
    let mut compiler = jit(CpuType::ARM7, vec![ldm], 0, 0x2000);
    let mut b = BlockAsm::new();
    compiler.emit_multiple_transfer(&mut b, false);
    // The slow path (label 0) ends with a jump to the dirty marks (label 1), not past them.
    let slow = b.insts.iter().position(|i| *i == BlockInst::Label { label: 0, unlikely: true }).unwrap();
    let dirty = b.insts.iter().position(|i| *i == BlockInst::Label { label: 1, unlikely: false }).unwrap();
    assert!(b.insts[slow..dirty].contains(&BlockInst::Branch { label: 1, cond: Cond::AL }));
    assert!(!b.insts[slow..dirty].contains(&BlockInst::Branch { label: 2, cond: Cond::AL }));
    assert_eq!(b.insts[dirty + 1], BlockInst::MarkRegDirty { reg: Reg::R0, dirty: true });
    assert_eq!(b.insts[dirty + 2], BlockInst::MarkRegDirty { reg: Reg::R1, dirty: true });
}

#[test]
fn word_load_slow_path_goes_past_the_dirty_marks() {
    let t = SingleTransfer { amount: MemoryAmount::Word, signed: false, pre: true, write_back: false, sub: false };
    let mut ldr = inst(Op::Ldr(t), Cond::AL, bit(1), bit(0));
    ldr.operands = [reg_op(Reg::R0), reg_op(Reg::R1), Operand::Empty];
    let mut compiler = jit(CpuType::ARM7, vec![ldr], 0, 0x2000);
    let mut b = BlockAsm::new();
    compiler.emit_single_read(&mut b);
    let cpsr = b.insts.iter().position(|i| *i == BlockInst::RestoreReg(Reg::CPSR)).unwrap();
    assert_eq!(b.insts[cpsr + 1], BlockInst::Branch { label: 2, cond: Cond::AL });
    assert_eq!(b.insts[cpsr + 2], BlockInst::Label { label: 1, unlikely: false });
    assert_eq!(b.insts[cpsr + 3], BlockInst::MarkRegDirty { reg: Reg::R0, dirty: true });
}

#[test]
fn block_store_of_all_sixteen_registers_splits_in_two() {
    let m = MultipleTransfer { pre: true, write_back: false, decrement: true, user: false };
    let mut stm = inst(Op::Stm(m), Cond::AL, 0xFFFF, 0);
    stm.opcode = 0xFFFF;
    stm.operands[0] = reg_op(Reg::R0);
    let mut compiler = jit(CpuType::ARM9, vec![stm], 0, 0x2000);
    let mut b = BlockAsm::new();
    compiler.emit_multiple_transfer(&mut b, false);
    let writes: Vec<&BlockInst> = b.insts.iter().filter(|i| matches!(i, BlockInst::GuestTransferWriteMultiple { .. })).collect();
    assert_eq!(writes.len(), 2);
    // Descending: the upper half goes first, then the lower half R0..R7.
    assert!(matches!(writes[1], BlockInst::GuestTransferWriteMultiple { gp_regs: RegReserve(0xFF), .. }));
    assert!(b.insts.iter().any(|i| matches!(i,
        BlockInst::Call3 { a0: BlockOperand::Imm(p), .. } if *p == 0xFFFF)));
    assert!(all_released(&b));
}

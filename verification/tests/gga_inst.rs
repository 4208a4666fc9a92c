use gamegirl::gga::inst_arm::AluEffect;
use gamegirl::gga::inst_generic::{mod_with_offs, Exception, Interrupt};
use gamegirl::gga::inst_thumb::{AluTiming, ThumbArith, ThumbImmOp, ThumbInst};
use gamegirl::gga::registers::{Cpu, Flag, Mode};

#[test]
fn conditions_follow_flags() {
    let mut cpu = Cpu::default();
    assert!(cpu.eval_condition(0xE));
    assert!(!cpu.eval_condition(0xF));
    assert!(!cpu.eval_condition(0x0));
    assert!(cpu.eval_condition(0x1));
    cpu.set_flag(Flag::Zero, true);
    assert!(cpu.eval_condition(0x0));
    assert!(cpu.eval_condition(0x9));
    assert!(cpu.eval_condition(0xD));
    cpu.set_flag(Flag::Zero, false);
    cpu.set_flag(Flag::Carry, true);
    assert!(cpu.eval_condition(0x8));
    cpu.set_flag(Flag::Neg, true);
    assert!(cpu.eval_condition(0xB));
    assert!(!cpu.eval_condition(0xA));
    cpu.set_flag(Flag::Overflow, true);
    assert!(cpu.eval_condition(0xA));
    assert!(cpu.eval_condition(0xC));
}

#[test]
fn condition_mnemonics() {
    assert_eq!("eq", Cpu::condition_mnemonic(0));
    assert_eq!("le", Cpu::condition_mnemonic(0xD));
    assert_eq!("", Cpu::condition_mnemonic(0xE));
    assert_eq!("nv", Cpu::condition_mnemonic(0xF));
    assert_eq!("add", Cpu::alu_mnemonic(4));
    assert_eq!("mvn", Cpu::alu_mnemonic(0xF));
    assert_eq!("asr", Cpu::shift_type_mnemonic(2));
    assert_eq!("ror", Cpu::shift_type_mnemonic(3));
}

#[test]
fn offsets_wrap() {
    assert_eq!(12, mod_with_offs(10, 2, true));
    assert_eq!(8, mod_with_offs(10, 2, false));
    assert_eq!(0xFFFF_FFFE, mod_with_offs(0, 2, false));
    assert_eq!(1, mod_with_offs(0xFFFF_FFFF, 2, true));
}

#[test]
fn exception_vectors_and_modes() {
    assert_eq!(0x08, Exception::Swi.vector());
    assert_eq!(Mode::Supervisor, Exception::Swi.mode());
    assert_eq!(0x18, Exception::Irq.vector());
    assert_eq!(Mode::Irq, Exception::Irq.mode());
    assert_eq!(Mode::Abort, Exception::DataAbort.mode());
    assert_eq!(3, Interrupt::Timer0.index());
    assert_eq!(13, Interrupt::GamePak.index());
}

#[test]
fn arm_alu_add_writes_register_and_flags() {
    let mut cpu = Cpu::default();
    cpu.set_reg(1, 0xFFFF_FFFF);
    let cpsr = cpu.cpsr;
    let e = cpu.alu::<false>(0x4, 1, 1, 2, true, cpsr);
    assert_eq!(AluEffect { spsr_restored: false, pc_written: false }, e);
    assert_eq!(0, cpu.reg(2));
    assert!(cpu.flag(Flag::Zero) && cpu.flag(Flag::Carry));
}

#[test]
fn arm_alu_without_s_keeps_flags() {
    let mut cpu = Cpu::default();
    let cpsr = cpu.cpsr;
    cpu.alu::<false>(0x2, 0, 1, 3, false, cpsr);
    assert_eq!(0xFFFF_FFFF, cpu.reg(3));
    assert_eq!(cpsr, cpu.cpsr);
}

#[test]
fn arm_compare_writes_no_register() {
    let mut cpu = Cpu::default();
    cpu.set_reg(4, 7);
    let cpsr = cpu.cpsr;
    cpu.alu::<false>(0xA, 4, 7, 4, true, cpsr);
    assert_eq!(7, cpu.reg(4));
    assert!(cpu.flag(Flag::Zero));
}

#[test]
fn arm_mov_to_pc_with_s_restores_spsr() {
    let mut cpu = Cpu::default();
    cpu.set_spsr(0x1F);
    let cpsr = cpu.cpsr;
    let e = cpu.alu::<false>(0xD, 0, 0x0800_0000, 15, true, cpsr);
    assert!(e.spsr_restored && e.pc_written);
    assert_eq!(Mode::System, cpu.mode());
    assert_eq!(0x0800_0000, cpu.pc);
}

#[test]
fn arm_shifter() {
    let mut cpu = Cpu::default();
    assert_eq!(0x10, cpu.shifted_op::<true>(0x10, 0, 0));
    assert_eq!(0x20, cpu.shifted_op::<true>(0x10, 0, 1));
    assert_eq!(0, cpu.shifted_op::<true>(0x8000_0000, 1, 0));
    assert!(cpu.flag(Flag::Carry));
}

#[test]
fn msr_flags_and_control() {
    let mut cpu = Cpu::default();
    assert!(cpu.msr(0xF000_001F, true, true, false));
    assert_eq!(0xF000_001F, cpu.cpsr);
    assert_eq!(Mode::System, cpu.mode());
    assert!(!cpu.msr(0x1234_5678, true, true, true));
    assert_eq!(0xF000_001F, cpu.cpsr);
    cpu.set_mode(Mode::User);
    cpu.msr(0x0000_001F, true, true, false);
    assert_eq!(Mode::User, cpu.mode());
    assert_eq!(0, cpu.cpsr & 0xF000_0000);
}

#[test]
fn thumb_register_fields() {
    let inst = ThumbInst(0b0000_0000_1010_1011);
    assert_eq!(3, inst.low(0));
    assert_eq!(5, inst.low(3));
    assert_eq!(5, inst.low(5));
}

#[test]
fn thumb_alu_ops() {
    let mut cpu = Cpu::default();
    cpu.low[0] = 6;
    cpu.low[1] = 7;
    // MUL r0, r1
    let t = cpu.thumb_alu(ThumbInst((0xD << 6) | (1 << 3)));
    assert_eq!(AluTiming::Multiply, t);
    assert_eq!(42, cpu.low[0]);
    // LSL r0, r1
    let t = cpu.thumb_alu(ThumbInst((0x2 << 6) | (1 << 3)));
    assert_eq!(AluTiming::Idle, t);
    assert_eq!(42 << 7, cpu.low[0]);
    // NEG r2, r1
    cpu.thumb_alu(ThumbInst((0x9 << 6) | (1 << 3) | 2));
    assert_eq!(0xFFFF_FFF9, cpu.low[2]);
    // CMP r1, r1
    let t = cpu.thumb_alu(ThumbInst((0xA << 6) | (1 << 3) | 1));
    assert_eq!(AluTiming::Plain, t);
    assert!(cpu.flag(Flag::Zero));
    assert_eq!(7, cpu.low[1]);
}

#[test]
fn thumb_arithmetic_ops() {
    let mut cpu = Cpu::default();
    cpu.low[1] = 5;
    cpu.low[2] = 3;
    // ADD r0, r1, r2
    cpu.thumb_arithmetic(ThumbArith::AddR, ThumbInst((2 << 6) | (1 << 3)));
    assert_eq!(8, cpu.low[0]);
    // SUB r0, r1, #6
    cpu.thumb_arithmetic(ThumbArith::SubI, ThumbInst((6 << 6) | (1 << 3)));
    assert_eq!(0xFFFF_FFFF, cpu.low[0]);
    assert!(cpu.flag(Flag::Neg));
    // LSL r3, r1, #2
    cpu.thumb_arithmetic(ThumbArith::Lsl, ThumbInst((2 << 6) | (1 << 3) | 3));
    assert_eq!(20, cpu.low[3]);
    // LSR r3, r1, #0 (means 32)
    cpu.thumb_arithmetic(ThumbArith::Lsr, ThumbInst((1 << 3) | 3));
    assert_eq!(0, cpu.low[3]);
}

#[test]
fn thumb_immediate_ops() {
    let mut cpu = Cpu::default();
    cpu.thumb_3(ThumbImmOp::Mov, ThumbInst((4 << 8) | 0x80));
    assert_eq!(0x80, cpu.low[4]);
    cpu.thumb_3(ThumbImmOp::Add, ThumbInst((4 << 8) | 0x01));
    assert_eq!(0x81, cpu.low[4]);
    cpu.thumb_3(ThumbImmOp::Sub, ThumbInst((4 << 8) | 0x81));
    assert_eq!(0, cpu.low[4]);
    assert!(cpu.flag(Flag::Zero));
    cpu.thumb_3(ThumbImmOp::Cmp, ThumbInst((4 << 8) | 0x01));
    assert_eq!(0, cpu.low[4]);
    assert!(cpu.flag(Flag::Neg));
}

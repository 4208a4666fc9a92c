use gamegirl::gga::inst_arm::{decode_arm, ArmDone, ArmInst, ArmOutcome, HalfKind};
use gamegirl::gga::inst_generic::Exception;
use gamegirl::gga::registers::{Cpu, Flag, Mode};

fn cpu() -> Cpu {
    let mut c = Cpu::default();
    c.pc = 0x0800_0008;
    c
}

fn done(pc_written: bool, check_irq: bool, wait_cycles: u32) -> ArmOutcome {
    ArmOutcome::Done(ArmDone { pc_written, check_irq, wait_cycles })
}

#[test]
fn decodes_instruction_classes() {
    assert_eq!(ArmInst::Branch { link: true, offset: 0x12 }, decode_arm(0xEB00_0012));
    assert_eq!(ArmInst::BranchExchange { rn: 3 }, decode_arm(0xE12F_FF13));
    assert_eq!(ArmInst::Swi, decode_arm(0xEF00_0000));
    assert_eq!(ArmInst::Mrs { spsr: true, rd: 2 }, decode_arm(0xE14F_2000));
    assert_eq!(
        ArmInst::MsrImm { spsr: false, flags: true, ctrl: false, rot: 4, imm: 0xF0 },
        decode_arm(0xE328_F4F0)
    );
    assert_eq!(ArmInst::Swap { byte: true, rn: 1, rd: 2, rm: 3 }, decode_arm(0xE141_2093));
    assert_eq!(
        ArmInst::Mul { accumulate: false, set_flags: false, rd: 3, rn: 0, rs: 2, rm: 1 },
        decode_arm(0xE003_0291)
    );
    assert_eq!(
        ArmInst::MulLong { op: 4, set_flags: false, rdhi: 5, rdlo: 4, rs: 2, rm: 1 },
        decode_arm(0xE085_4291)
    );
    assert!(matches!(decode_arm(0xE8BD_8000), ArmInst::BlockTransfer { load: true, rn: 13, rlist: 0x8000, .. }));
    assert!(matches!(decode_arm(0xE591_0004), ArmInst::Transfer { load: true, reg_offset: false, offset: 4, .. }));
    assert!(matches!(
        decode_arm(0xE1D1_00B2),
        ArmInst::HalfTransfer { kind: HalfKind::Half, imm_offset: true, offset: 2, .. }
    ));
    assert!(matches!(decode_arm(0xE1D1_00F2), ArmInst::HalfTransfer { kind: HalfKind::SignedHalf, .. }));
    assert!(matches!(decode_arm(0xE191_00D2), ArmInst::HalfTransfer { kind: HalfKind::SignedByte, imm_offset: false, .. }));
    assert!(matches!(decode_arm(0xE090_1080), ArmInst::AluReg { op: 4, set_flags: true, amount: 1, by_reg: false, .. }));
    assert!(matches!(decode_arm(0xE3A0_0010), ArmInst::AluImm { op: 0xD, imm: 0x10, .. }));
    assert_eq!(ArmInst::Unknown, decode_arm(0xE600_0010));
}

#[test]
fn data_processing() {
    let mut c = cpu();
    // MOV r0, #0x10
    assert_eq!(done(false, false, 0), c.execute_inst_arm(0xE3A0_0010));
    assert_eq!(0x10, c.reg(0));
    // ADDS r1, r0, r0 LSL #1
    assert_eq!(done(false, false, 1), c.execute_inst_arm(0xE090_1080));
    assert_eq!(0x30, c.reg(1));
    // SUBS r2, r0, #0x10 sets Z
    c.execute_inst_arm(0xE250_2010);
    assert_eq!(0, c.reg(2));
    assert!(c.flag(Flag::Zero));
    // MOV r3, r1, LSL r0 (shift by register, amount 0x10)
    c.execute_inst_arm(0xE1A0_3011);
    assert_eq!(0x30_0000, c.reg(3));
}

#[test]
fn condition_codes_skip() {
    let mut c = cpu();
    // BEQ with Z clear
    assert_eq!(ArmOutcome::Skipped, c.execute_inst_arm(0x0A00_0002));
    assert_eq!(0x0800_0008, c.pc);
    c.set_flag(Flag::Zero, true);
    assert_eq!(done(true, false, 0), c.execute_inst_arm(0x0A00_0002));
    assert_eq!(0x0800_0010, c.pc);
    // A BLEQ at PC 0 with Z clear is skipped before anything is computed
    let mut c = cpu();
    c.pc = 0;
    assert_eq!(ArmOutcome::Skipped, c.execute_inst_arm(0x0B00_0002));
    assert_eq!(0, c.pc);
}

#[test]
fn branches() {
    let mut c = cpu();
    // BL -2 words
    c.execute_inst_arm(0xEBFF_FFFE);
    assert_eq!(0x0800_0004, c.lr());
    assert_eq!(0x0800_0000, c.pc);
    // BX r0 with an odd address switches to THUMB
    c.set_reg(0, 0x0300_0001);
    c.execute_inst_arm(0xE12F_FF10);
    assert!(c.flag(Flag::Thumb));
    assert_eq!(0x0300_0000, c.pc);
}

#[test]
fn psr_transfers() {
    let mut c = cpu();
    // MSR CPSR_f, #0xF0000000
    assert_eq!(done(false, true, 0), c.execute_inst_arm(0xE328_F4F0));
    assert_eq!(0xF000_00D3, c.cpsr);
    // MRS r2, CPSR
    c.execute_inst_arm(0xE10F_2000);
    assert_eq!(0xF000_00D3, c.reg(2));
    // MSR SPSR_fc, r2
    assert_eq!(done(false, false, 0), c.execute_inst_arm(0xE169_F002));
    assert_eq!(0xF000_00D3, c.spsr());
}

#[test]
fn multiplies() {
    let mut c = cpu();
    c.set_reg(1, 6);
    c.set_reg(2, 7);
    // MUL r3, r1, r2
    assert_eq!(done(false, false, 1), c.execute_inst_arm(0xE003_0291));
    assert_eq!(42, c.reg(3));
    // MLAS r3, r1, r2, r3
    assert_eq!(done(false, false, 2), c.execute_inst_arm(0xE033_3291));
    assert_eq!(84, c.reg(3));
    // UMULL r4, r5, r1, r2 with big operands
    c.set_reg(1, 0xFFFF_FFFF);
    c.set_reg(2, 0xFFFF_FFFF);
    c.execute_inst_arm(0xE085_4291);
    assert_eq!(0x0000_0001, c.reg(4));
    assert_eq!(0xFFFF_FFFE, c.reg(5));
    // SMULL r4, r5, r1, r2: (-1) * (-1)
    c.execute_inst_arm(0xE0C5_4291);
    assert_eq!(1, c.reg(4));
    assert_eq!(0, c.reg(5));
    // SMLALS r4, r5, r1, r2: 1 + 1 = 2
    c.execute_inst_arm(0xE0F5_4291);
    assert_eq!(2, c.reg(4));
    assert_eq!(0, c.reg(5));
    assert!(!c.flag(Flag::Zero) && !c.flag(Flag::Neg));
    // UMLAL r4, r5: 2 + 0xFFFFFFFE00000001
    c.execute_inst_arm(0xE0A5_4291);
    assert_eq!(3, c.reg(4));
    assert_eq!(0xFFFF_FFFE, c.reg(5));
}

#[test]
fn memory_and_swi_go_to_the_system() {
    let mut c = cpu();
    assert_eq!(ArmOutcome::Swi, c.execute_inst_arm(0xEF00_0000));
    assert!(matches!(c.execute_inst_arm(0xE591_0004), ArmOutcome::Memory(ArmInst::Transfer { .. })));
    assert_eq!(ArmOutcome::Unknown, c.execute_inst_arm(0xE600_0010));
    assert_eq!(0x0800_0008, c.pc);
}

#[test]
fn exception_entry_and_return() {
    let mut c = cpu();
    c.set_mode(Mode::User);
    c.set_flag(Flag::Carry, true);
    c.set_flag(Flag::FiqDisable, false);
    c.set_flag(Flag::IrqDisable, false);
    let user_cpsr = c.cpsr;
    c.enter_exception(Exception::Swi);
    assert_eq!(Mode::Supervisor, c.mode());
    assert_eq!(0x08, c.pc);
    assert_eq!(0x0800_0004, c.lr());
    assert_eq!(user_cpsr, c.spsr());
    assert!(c.flag(Flag::IrqDisable) && !c.flag(Flag::FiqDisable));
    // MOVS pc, lr
    c.execute_inst_arm(0xE1B0_F00E);
    assert_eq!(user_cpsr, c.cpsr);
    assert_eq!(0x0800_0004, c.pc);
}

#[test]
fn thumb_exception_entry_and_fiq() {
    let mut c = cpu();
    c.set_flag(Flag::Thumb, true);
    c.enter_exception(Exception::Fiq);
    assert_eq!(Mode::Fiq, c.mode());
    assert!(!c.flag(Flag::Thumb) && c.flag(Flag::FiqDisable));
    assert_eq!(0x0800_0006, c.lr());
    assert_eq!(0x1C, c.pc);
}

#[test]
fn multiply_timing() {
    assert_eq!(1, Cpu::mul_wait_cycles(0xFF, false));
    assert_eq!(2, Cpu::mul_wait_cycles(0xFFFF, false));
    assert_eq!(3, Cpu::mul_wait_cycles(0xFF_FFFF, false));
    assert_eq!(4, Cpu::mul_wait_cycles(0xFFFF_FFFF, false));
    assert_eq!(1, Cpu::mul_wait_cycles(0xFFFF_FFFF, true));
    assert_eq!(2, Cpu::mul_wait_cycles(0xFFFF_0000, true));
}

#[test]
fn arm_mnemonics() {
    let cases: [(u32, &str); 30] = [
        (0xEA00_0000, "b +0x8"),
        (0xEAFF_FFFE, "b +0x0"),
        (0xEAFF_FFFD, "b +0xFFFFFFFC"),
        (0x0B00_0010, "bleq +0x48"),
        (0xE12F_FF13, "bx r3"),
        (0xEF00_0012, "swi 0x0000012"),
        (0xE101_2093, "swp r2, r3, [r1]"),
        (0xE141_2093, "swpb r2, r3, [r1]"),
        (0xE10F_2000, "mrs r2, cpsr"),
        (0xE14F_2000, "mrs r2, spsr"),
        (0xE129_F001, "msr reg (todo)"),
        (0xE328_F4F0, "msr imm (todo)"),
        (0xE003_0291, "mul r3, r1, r2, (0)"),
        (0xE023_4291, "mla r3, r1, r2, r4 (0)"),
        (0xE0A5_4291, "umlal r5r4, (r1 * r2 + r5r4) (0)"),
        (0xE8BD_000F, "ldmia r13!, 0000000000001111"),
        (0xE591_0004, "ldr r0, [r1+0x4]"),
        (0xE4C1_2001, "strb r2, [r1], +0x1"),
        (0xE791_0102, "ldr r0, [r1+(r2 lsl 2)]"),
        (0xE1D1_00B2, "ldrh r0, [r1 +0x2]"),
        (0xE191_00B2, "ldrh r0, [r1 +r2]"),
        (0xE090_1080, "add r1, r0, r0 (lsl #1) (1)"),
        (0xE1A0_0000, "mov r0, r0  (0)"),
        (0xE150_0001, "cmp r0, r1  (1)"),
        (0xE3A0_0010, "mov r0, #10 (0)"),
        (0xE250_2010, "sub r2, r0, #10 (1)"),
        (0xE3A0_04FF, "mov r0, #F000000F (0)"),
        (0xE1A0_0211, "mov r0, r1 (lsl r2) (0)"),
        (0xE600_0010, "E6000010??"),
        (0x1A00_0001, "bne +0xC"),
    ];
    for (inst, text) in cases {
        assert_eq!(text, Cpu::get_mnemonic_arm(inst), "{:08X}", inst);
    }
}

#[test]
fn interrupt_check() {
    let mut c = Cpu::default();
    c.pc = 0x100;
    // IRQs disabled in CPSR: nothing happens
    assert!(!c.check_if_interrupt(1, 1, 1));
    assert_eq!(0x100, c.pc);
    c.set_flag(Flag::IrqDisable, false);
    // IME off, or no enabled request
    assert!(!c.check_if_interrupt(0, 1, 1));
    assert!(!c.check_if_interrupt(1, 2, 1));
    assert_eq!(0x100, c.pc);
    assert!(c.check_if_interrupt(1, 3, 2));
    assert_eq!(Mode::Irq, c.mode());
    assert_eq!(0x18, c.pc);
    assert_eq!(0x100, c.lr());
    assert!(c.flag(Flag::IrqDisable));
}

use gamegirl::gga::inst_generic::lut_span;
use gamegirl::gga::inst_thumb::{
    decode_thumb, get_mnemonic_thumb, make_thumb_lut, AluTiming, ThumbArith, ThumbDone, ThumbImmOp, ThumbKind, ThumbOutcome,
};
use gamegirl::gga::registers::{Cpu, Flag};

fn thumb_cpu() -> Cpu {
    let mut c = Cpu::default();
    c.set_flag(Flag::Thumb, true);
    c.pc = 0x0800_0104;
    c
}

fn plain() -> ThumbOutcome {
    ThumbOutcome::Done(ThumbDone { pc_written: false, timing: AluTiming::Plain })
}

fn jumped() -> ThumbOutcome {
    ThumbOutcome::Done(ThumbDone { pc_written: true, timing: AluTiming::Plain })
}

#[test]
fn lut_span_fills_one_span() {
    let mut lut = vec![0u8; 256];
    lut_span(&mut lut, 0b0001101, 7, 9);
    assert_eq!(0, lut[0x19]);
    assert_eq!(9, lut[0x1A]);
    assert_eq!(9, lut[0x1B]);
    assert_eq!(0, lut[0x1C]);
    lut_span(&mut lut, 0b010, 3, 1);
    assert_eq!(1, lut[0x40]);
    assert_eq!(1, lut[0x5F]);
    assert_eq!(0, lut[0x60]);
}

#[test]
fn thumb_table_tells_kinds_apart() {
    let lut = make_thumb_lut();
    assert_eq!(256, lut.len());
    assert_eq!(ThumbKind::Arith(ThumbArith::Lsl), lut[0x00]);
    assert_eq!(ThumbKind::Arith(ThumbArith::Asr), lut[0x17]);
    assert_eq!(ThumbKind::Arith(ThumbArith::AddR), lut[0x18]);
    assert_eq!(ThumbKind::Arith(ThumbArith::SubI), lut[0x1F]);
    assert_eq!(ThumbKind::Imm(ThumbImmOp::Cmp), lut[0x2A]);
    assert_eq!(ThumbKind::Alu, lut[0x43]);
    assert_eq!(ThumbKind::HiBx, lut[0x47]);
    assert_eq!(ThumbKind::LdrPc, lut[0x48]);
    assert_eq!(ThumbKind::LdrStrReg(7), lut[0x5F]);
    assert_eq!(ThumbKind::LdrStrImm(3), lut[0x78]);
    assert_eq!(ThumbKind::LdrStrHalf(false), lut[0x8C]);
    assert_eq!(ThumbKind::RelAddr(true), lut[0xA8]);
    assert_eq!(ThumbKind::SpOffs, lut[0xB0]);
    assert_eq!(ThumbKind::Unknown, lut[0xB1]);
    assert_eq!(ThumbKind::Push(true), lut[0xB5]);
    assert_eq!(ThumbKind::Pop(false), lut[0xBC]);
    assert_eq!(ThumbKind::Ldmia, lut[0xC8]);
    assert_eq!(ThumbKind::BCond(0xE), lut[0xDE]);
    assert_eq!(ThumbKind::Swi, lut[0xDF]);
    assert_eq!(ThumbKind::Bl(false), lut[0xE8]);
    assert_eq!(ThumbKind::SetLr, lut[0xF0]);
    assert_eq!(ThumbKind::Bl(true), lut[0xFF]);
}

#[test]
fn thumb_data_processing() {
    let lut = make_thumb_lut();
    let mut c = thumb_cpu();
    // MOV r1, #0x42
    assert_eq!(plain(), c.execute_inst_thumb(&lut, 0x2142));
    assert_eq!(0x42, c.low[1]);
    // ADD r1, #1
    c.execute_inst_thumb(&lut, 0x3101);
    assert_eq!(0x43, c.low[1]);
    // LSL r2, r1, #4
    c.execute_inst_thumb(&lut, 0x010A);
    assert_eq!(0x430, c.low[2]);
    // MUL r0, r1
    c.low[0] = 2;
    let r = c.execute_inst_thumb(&lut, 0x4348);
    assert_eq!(ThumbOutcome::Done(ThumbDone { pc_written: false, timing: AluTiming::Multiply }), r);
    assert_eq!(0x86, c.low[0]);
    assert_eq!(0x0800_0104, c.pc);
}

#[test]
fn thumb_high_registers() {
    let lut = make_thumb_lut();
    let mut c = thumb_cpu();
    c.low[1] = 0x43;
    // ADD r8, r1
    assert_eq!(plain(), c.execute_inst_thumb(&lut, 0x4488));
    assert_eq!(0x43, c.reg(8));
    // MOV r0, r8
    c.execute_inst_thumb(&lut, 0x4640);
    assert_eq!(0x43, c.low[0]);
    // CMP r0, r8
    c.execute_inst_thumb(&lut, 0x4540);
    assert!(c.flag(Flag::Zero));
    assert_eq!(0x43, c.low[0]);
    // MOV pc, r1 aligns to the halfword
    c.low[1] = 0x0800_0311;
    assert_eq!(jumped(), c.execute_inst_thumb(&lut, 0x468F));
    assert_eq!(0x0800_0310, c.pc);
}

#[test]
fn thumb_branch_exchange() {
    let lut = make_thumb_lut();
    let mut c = thumb_cpu();
    // BX r0 with an odd address stays in THUMB state
    c.low[0] = 0x0800_0201;
    assert_eq!(jumped(), c.execute_inst_thumb(&lut, 0x4700));
    assert_eq!(0x0800_0200, c.pc);
    assert!(c.flag(Flag::Thumb));
    // BX r1 with an even address switches to ARM state
    c.low[1] = 0x0800_0302;
    c.execute_inst_thumb(&lut, 0x4708);
    assert_eq!(0x0800_0300, c.pc);
    assert!(!c.flag(Flag::Thumb));
    // BX pc switches to ARM state at the word-aligned PC
    let mut c = thumb_cpu();
    c.execute_inst_thumb(&lut, 0x4778);
    assert_eq!(0x0800_0104, c.pc);
    assert!(!c.flag(Flag::Thumb));
}

#[test]
fn thumb_conditional_branches() {
    let lut = make_thumb_lut();
    let mut c = thumb_cpu();
    c.set_flag(Flag::Zero, true);
    // BEQ +4
    assert_eq!(jumped(), c.execute_inst_thumb(&lut, 0xD002));
    assert_eq!(0x0800_0108, c.pc);
    // BNE is not taken
    assert_eq!(plain(), c.execute_inst_thumb(&lut, 0xD102));
    assert_eq!(0x0800_0108, c.pc);
    // BEQ -4
    c.execute_inst_thumb(&lut, 0xD0FE);
    assert_eq!(0x0800_0104, c.pc);
    // B -2
    assert_eq!(jumped(), c.execute_inst_thumb(&lut, 0xE7FF));
    assert_eq!(0x0800_0102, c.pc);
}

#[test]
fn thumb_long_branch_with_link() {
    let lut = make_thumb_lut();
    let mut c = thumb_cpu();
    c.pc = 0x0800_0000;
    assert_eq!(plain(), c.execute_inst_thumb(&lut, 0xF001));
    assert_eq!(0x0800_1000, c.lr());
    c.pc = 0x0800_0002;
    assert_eq!(jumped(), c.execute_inst_thumb(&lut, 0xF810));
    assert_eq!(0x0800_1020, c.pc);
    assert_eq!(0x0800_0001, c.lr());
    assert!(c.flag(Flag::Thumb));
    // A negative upper half
    c.pc = 0x0800_2000;
    c.execute_inst_thumb(&lut, 0xF7FF);
    assert_eq!(0x0800_1000, c.lr());
    // BLX leaves THUMB state
    c.execute_inst_thumb(&lut, 0xE810);
    assert!(!c.flag(Flag::Thumb));
}

#[test]
fn thumb_addresses_and_sp() {
    let lut = make_thumb_lut();
    let mut c = thumb_cpu();
    let sp = c.sp();
    // ADD r3, sp, #8
    assert_eq!(plain(), c.execute_inst_thumb(&lut, 0xAB02));
    assert_eq!(sp + 8, c.low[3]);
    // ADD r3, pc, #8
    c.pc = 0x0800_0106;
    c.execute_inst_thumb(&lut, 0xA302);
    assert_eq!(0x0800_010C, c.low[3]);
    // ADD sp, #-0x10, then #0x10
    c.execute_inst_thumb(&lut, 0xB084);
    assert_eq!(sp - 0x10, c.sp());
    c.execute_inst_thumb(&lut, 0xB004);
    assert_eq!(sp, c.sp());
}

#[test]
fn thumb_system_instructions_are_handed_back() {
    let lut = make_thumb_lut();
    let mut c = thumb_cpu();
    assert_eq!(ThumbOutcome::Memory(ThumbKind::LdrPc), c.execute_inst_thumb(&lut, 0x4800));
    assert_eq!(ThumbOutcome::Memory(ThumbKind::Push(true)), c.execute_inst_thumb(&lut, 0xB500));
    assert_eq!(ThumbOutcome::Memory(ThumbKind::LdrStrReg(4)), c.execute_inst_thumb(&lut, 0x5888));
    assert_eq!(ThumbOutcome::Unknown, c.execute_inst_thumb(&lut, 0xB100));
    assert_eq!(ThumbOutcome::Swi, c.execute_inst_thumb(&lut, 0xDF00));
    assert_eq!(0x0800_0104, c.pc);
}

#[test]
fn thumb_decoder_agrees_with_table() {
    let lut = make_thumb_lut();
    for hi in 0..256u16 {
        assert_eq!(lut[hi as usize], decode_thumb(hi << 8 | 0x5A));
    }
}

#[test]
fn thumb_mnemonics() {
    let cases: [(u16, &str); 32] = [
        (0x2142, "mov r1, #66"),
        (0x010A, "lsl r2, r1, #0x4"),
        (0x1888, "add r0, r1, r2"),
        (0x1E48, "sub r0, r1, #0x1"),
        (0x4348, "mul r0, r1"),
        (0x4208, "tst r1"),
        (0x4488, "add r8, r1"),
        (0x4778, "bx r15"),
        (0x47F0, "blx r14"),
        (0x4801, "ldr r0, [PC, #0x4]"),
        (0x5888, "ldr r0, [r1, r2]"),
        (0x6848, "ldr r0, [r1, #0x1]"),
        (0x8048, "strh r0, [r1, #0x2]"),
        (0x9201, "str r2, [sp, #0x4]"),
        (0x9A01, "ldr r2, [sp, #0x4]"),
        (0xAB02, "add r3, sp, #0x8"),
        (0xB084, "add sp, #-0x10"),
        (0xB5F0, "push 11110000, lr"),
        (0xBD01, "pop 00000001, pc"),
        (0xC103, "stmia r1!, 00000011"),
        (0xD0FE, "beq 0xFFFE"),
        (0xD002, "beq 0x6"),
        (0xDE00, "b 0x2"),
        (0xDF05, "swi 0x05"),
        (0xE7FF, "b 0x0"),
        (0xE7FE, "b 0xFFFE"),
        (0xF001, "mov lr, (pc + 0x1000)"),
        (0xF7FF, "mov lr, (pc + 0xF000)"),
        (0xF810, "bl lr + 0x20"),
        (0xE810, "blx lr + 0x20"),
        (0xB100, "B100??"),
        (0x0000, "lsl r0, r0, #0x0"),
    ];
    for (inst, text) in cases {
        assert_eq!(text, get_mnemonic_thumb(inst), "{:04X}", inst);
    }
}

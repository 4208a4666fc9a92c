use gamegirl::psx::cpu::{Cpu, Exception, ShiftOp, SignedOp, UnsignedOp};
use gamegirl::psx::inst::Inst;

fn i_type(rs: u32, rt: u32, imm: u32) -> Inst {
    Inst((rs << 21) | (rt << 16) | (imm & 0xFFFF))
}

fn r_type(rs: u32, rt: u32, rd: u32, shamt: u32) -> Inst {
    Inst((rs << 21) | (rt << 16) | (rd << 11) | (shamt << 6))
}

/// A CPU with the given registers set and visible.
fn cpu_with(regs: &[(u32, u32)]) -> Cpu {
    let mut cpu = Cpu::new();
    for &(r, v) in regs {
        cpu.set_reg(r, v);
    }
    cpu.finish_instruction();
    cpu
}

#[test]
fn instruction_fields() {
    let inst = Inst(0x8FA2_FFF0);
    assert_eq!(29, inst.rs());
    assert_eq!(2, inst.rt());
    assert_eq!(0xFFF0, inst.imm16());
    assert_eq!(-16, inst.imm16s());
    assert_eq!(31, inst.rd());
    assert_eq!(31, inst.imm5());
    assert_eq!(0x03A2_FFF0, inst.imm26());
}

#[test]
fn register_writes_are_delayed() {
    let mut cpu = Cpu::new();
    cpu.set_reg(5, 42);
    assert_eq!(0, cpu.reg(5));
    cpu.finish_instruction();
    assert_eq!(42, cpu.reg(5));
    cpu.set_reg(0, 1);
    cpu.finish_instruction();
    assert_eq!(0, cpu.reg(0));
}

#[test]
fn pending_load_lands_at_next_instruction() {
    let mut cpu = Cpu::new();
    cpu.pending_load.reg = 3;
    cpu.pending_load.value = 9;
    let fetch = cpu.start_instruction();
    assert_eq!(0xBFC0_0000, fetch);
    assert_eq!(0xBFC0_0004, cpu.pc);
    assert_eq!(0xBFC0_0008, cpu.next_pc);
    assert_eq!(0, cpu.reg(3));
    cpu.finish_instruction();
    assert_eq!(9, cpu.reg(3));
    assert_eq!(0, cpu.pending_load.reg);
}

#[test]
fn unsigned_math() {
    let mut cpu = cpu_with(&[(1, 0xFFFF_FFFF), (2, 3)]);
    cpu.math_unsigned(i_type(1, 3, 2), true, UnsignedOp::Add);
    cpu.math_unsigned(r_type(2, 1, 0, 0), false, UnsignedOp::Sub);
    cpu.finish_instruction();
    assert_eq!(1, cpu.reg(3));
    assert_eq!(4, cpu.reg(1));
    cpu.math_unsigned(i_type(0, 4, 0x1234), true, UnsignedOp::Lui);
    cpu.math_unsigned(i_type(2, 5, 4), true, UnsignedOp::Slt);
    cpu.math_unsigned(r_type(0, 0, 0, 0), false, UnsignedOp::Nor);
    cpu.finish_instruction();
    assert_eq!(0x1234_0000, cpu.reg(4));
    assert_eq!(1, cpu.reg(5));
    assert_eq!(0, cpu.reg(0));
}

#[test]
fn signed_math_and_overflow() {
    let mut cpu = cpu_with(&[(1, 0x7FFF_FFFF), (2, 0xFFFF_FFFF)]);
    cpu.math_signed(i_type(1, 3, 1), true, SignedOp::AddU);
    cpu.math_signed(i_type(2, 4, 0xFFFF), true, SignedOp::Add);
    cpu.math_signed(r_type(2, 6, 0, 0), false, SignedOp::Slt);
    cpu.math_signed(r_type(1, 2, 0, 0), false, SignedOp::SubU);
    cpu.finish_instruction();
    assert_eq!(1, cpu.reg(6));
    assert_eq!(0x8000_0000, cpu.reg(2));
    assert_eq!(0x8000_0000, cpu.reg(3));
    assert_eq!(0xFFFF_FFFE, cpu.reg(4));
    let before = cpu.reg(5);
    cpu.math_signed(i_type(1, 5, 1), true, SignedOp::Add);
    cpu.finish_instruction();
    assert_eq!(before, cpu.reg(5));
    assert_eq!(Exception::Overflow.code() << 2, cpu.cop0.cause);
    assert_eq!(0x8000_0084, cpu.pc);
}

#[test]
fn mips_shifts() {
    let mut cpu = cpu_with(&[(1, 0x8000_0001), (2, 33)]);
    cpu.shift(r_type(0, 1, 3, 4), true, ShiftOp::Sll);
    cpu.shift(r_type(0, 1, 4, 4), true, ShiftOp::Srl);
    cpu.shift(r_type(0, 1, 5, 4), true, ShiftOp::Sra);
    cpu.shift(r_type(2, 1, 6, 0), false, ShiftOp::Sll);
    cpu.finish_instruction();
    assert_eq!(0x0000_0010, cpu.reg(3));
    assert_eq!(0x0800_0000, cpu.reg(4));
    assert_eq!(0xF800_0000, cpu.reg(5));
    assert_eq!(0x0000_0002, cpu.reg(6));
}

#[test]
fn multiply_and_divide() {
    let mut cpu = cpu_with(&[(1, 0xFFFF_FFFF), (2, 2), (3, 0)]);
    cpu.muldiv(r_type(1, 2, 0, 0), false, false);
    assert_eq!(0xFFFF_FFFE, cpu.lo);
    assert_eq!(1, cpu.hi);
    cpu.muldiv(r_type(1, 2, 0, 0), true, false);
    assert_eq!(0x7FFF_FFFF, cpu.lo);
    assert_eq!(1, cpu.hi);
    cpu.muldiv(r_type(2, 3, 0, 0), true, false);
    assert_eq!(0xFFFF_FFFF, cpu.lo);
    assert_eq!(2, cpu.hi);
    cpu.muldiv(r_type(2, 3, 0, 0), true, true);
    assert_eq!(1, cpu.lo);
    cpu.lohi_mov(r_type(0, 0, 7, 0), true, true);
    cpu.finish_instruction();
    assert_eq!(2, cpu.reg(7));
    cpu.lohi_mov(r_type(7, 0, 0, 0), false, false);
    assert_eq!(2, cpu.lo);
}

#[test]
fn exceptions_push_mode_stack_and_rfe_pops_it() {
    let mut cpu = Cpu::new();
    cpu.cop0.sr = 0x0040_0005;
    cpu.inst_pc = 0x100;
    cpu.exception_occurred(Exception::Syscall);
    assert_eq!(0x0040_0014, cpu.cop0.sr);
    assert_eq!(0x20, cpu.cop0.cause);
    assert_eq!(0x100, cpu.cop0.epc);
    assert_eq!(0xBFC0_0184, cpu.pc);
    cpu.rfe(Inst(0x4200_0010));
    assert_eq!(0x0040_0005, cpu.cop0.sr);
}

#[test]
fn exception_in_delay_slot_points_at_branch() {
    let mut cpu = Cpu::new();
    cpu.is_delay = true;
    cpu.inst_pc = 0x104;
    cpu.exception_occurred(Exception::Break);
    assert_eq!(0x100, cpu.cop0.epc);
    assert_eq!(0x8000_0024, cpu.cop0.cause);
    assert_eq!(0x8000_0084, cpu.pc);
}

#[test]
fn alignment_checks() {
    let mut cpu = Cpu::new();
    assert!(!cpu.ensure_aligned(0x1002, 2, Exception::UnalignedLoad));
    assert!(!cpu.ensure_aligned(0x1003, 1, Exception::UnalignedLoad));
    assert!(cpu.ensure_aligned(0x1002, 4, Exception::UnalignedStore));
    assert_eq!(0x14, cpu.cop0.cause);
}

#[test]
fn jumps_and_branches() {
    let mut cpu = cpu_with(&[(1, 5), (2, 5), (3, 0xFFFF_FFFF)]);
    cpu.pc = 0x8001_0000;
    cpu.beq(i_type(1, 2, 4));
    assert_eq!(0x8001_000C, cpu.next_pc);
    assert!(cpu.is_branch);
    cpu.next_pc = 0;
    cpu.bne(i_type(1, 2, 4));
    assert_eq!(0, cpu.next_pc);
    cpu.blez(i_type(3, 0, 0xFFFF));
    assert_eq!(0x8000_FFF8, cpu.next_pc);
    cpu.next_pc = 0;
    cpu.bgtz(i_type(3, 0, 1));
    assert_eq!(0, cpu.next_pc);
    cpu.j(Inst(0x0800_0010));
    assert_eq!(0x8000_0040, cpu.next_pc);
    cpu.jal(Inst(0x0C00_0020));
    cpu.finish_instruction();
    assert_eq!(0x8000_0080, cpu.next_pc);
    assert_eq!(0x8001_0000, cpu.reg(31));
    assert_eq!(0x8001_0004, cpu.addr_with_imm(i_type(31, 0, 4)));
}

#[test]
fn conditional_branch_on_sign_with_link() {
    let mut cpu = cpu_with(&[(1, 0xFFFF_FFFF)]);
    cpu.pc = 0x1000;
    // BLTZAL r1, +2
    cpu.bcondz(Inst((1 << 21) | (0x10 << 16) | 2));
    cpu.finish_instruction();
    assert_eq!(0x1004, cpu.next_pc);
    assert_eq!(0x1000, cpu.reg(31));
}

#[test]
fn unaligned_jump_raises() {
    let mut cpu = Cpu::new();
    cpu.jump_pc(0x1002);
    assert_eq!(0x10, cpu.cop0.cause);
    assert_eq!(0x8000_0084, cpu.pc);
}

#[test]
fn cop0_moves() {
    let mut cpu = cpu_with(&[(4, 0x0001_0000)]);
    cpu.mtc0(r_type(0, 4, 12, 0));
    assert!(cpu.cache_isolated());
    cpu.mtc0(r_type(0, 4, 13, 0));
    assert_eq!(0, cpu.cop0.cause);
    cpu.mfc0(r_type(0, 5, 12, 0));
    cpu.finish_instruction();
    assert_eq!(0x0001_0000, cpu.reg(5));
}

#[test]
fn unaligned_loads_and_stores() {
    let mut cpu = cpu_with(&[(1, 0x1001), (2, 0xAABB_CCDD)]);
    cpu.next_regs[2] = 0xAABB_CCDD;
    cpu.lwr(i_type(1, 2, 0), 0x1122_3344);
    assert_eq!(2, cpu.pending_load.reg);
    assert_eq!(0xAA11_2233, cpu.pending_load.value);
    cpu.lwl(i_type(1, 2, 0), 0x1122_3344);
    assert_eq!(0x3344_CCDD, cpu.pending_load.value);
    assert_eq!(0xAABB_1122, cpu.swl(i_type(1, 2, 0), 0x1122_3344));
    assert_eq!(0x2233_44DD, cpu.swr(i_type(1, 2, 0), 0x1122_3344));
}

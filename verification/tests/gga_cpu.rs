use gamegirl::gga::registers::{Cpu, Flag, Mode};

const N: u32 = 1 << 31;
const Z: u32 = 1 << 30;
const C: u32 = 1 << 29;
const V: u32 = 1 << 28;

fn flags(cpu: &Cpu) -> u32 {
    cpu.cpsr & 0xF000_0000
}

#[test]
fn default_cpu_is_in_supervisor_mode() {
    let cpu = Cpu::default();
    assert_eq!(Mode::Supervisor, cpu.mode());
    assert_eq!(0x0300_7FE0, cpu.sp());
    assert_eq!(4, cpu.inst_size());
}

#[test]
fn mode_bits_round_trip() {
    for m in [
        Mode::User,
        Mode::Fiq,
        Mode::Supervisor,
        Mode::Abort,
        Mode::Irq,
        Mode::Undefined,
        Mode::System,
    ] {
        assert_eq!(m, Mode::get(m.to_u32()));
    }
    assert_eq!(Mode::Irq, Mode::get(0x02));
    assert_eq!(Mode::Supervisor, Mode::get(0x0F));
}

#[test]
fn banked_registers_follow_mode() {
    let mut cpu = Cpu::default();
    cpu.set_mode(Mode::Irq);
    cpu.set_sp(0x1234);
    cpu.set_lr(0x5678);
    cpu.set_spsr(0x10);
    cpu.set_mode(Mode::User);
    assert_eq!(0x0300_7F00, cpu.sp());
    assert_eq!(0, cpu.lr());
    cpu.set_mode(Mode::System);
    assert_eq!(0x0300_7F00, cpu.sp());
    cpu.set_mode(Mode::Irq);
    assert_eq!(0x1234, cpu.reg(13));
    assert_eq!(0x5678, cpu.reg(14));
    assert_eq!(0x10, cpu.spsr());
}

#[test]
fn fiq_registers_are_separate() {
    let mut cpu = Cpu::default();
    cpu.set_mode(Mode::User);
    cpu.set_reg(10, 1);
    cpu.set_mode(Mode::Fiq);
    assert_eq!(0, cpu.reg(10));
    cpu.set_reg(10, 2);
    cpu.set_mode(Mode::User);
    assert_eq!(1, cpu.reg(10));
    cpu.set_reg(3, 7);
    cpu.set_mode(Mode::Fiq);
    assert_eq!(7, cpu.reg(3));
    assert_eq!(7, cpu.low(3));
}

#[test]
fn pc_writes_are_aligned() {
    let mut cpu = Cpu::default();
    assert!(cpu.set_reg(15, 0x0800_0003));
    assert_eq!(0x0800_0000, cpu.pc);
    cpu.set_flag(Flag::Thumb, true);
    assert_eq!(2, cpu.inst_size());
    assert!(cpu.set_reg(15, 0x0800_0003));
    assert_eq!(0x0800_0002, cpu.pc);
    assert!(!cpu.set_reg(0, 5));
    assert_eq!(0x0800_0006, cpu.reg_pc4(15));
    assert_eq!(0x0800_0000, cpu.adj_pc());
}

#[test]
fn set_low_uses_instruction_bits() {
    let mut cpu = Cpu::default();
    cpu.set_low(0b101_000, 3, 99);
    assert_eq!(99, cpu.low(5));
}

#[test]
fn add_flags() {
    let mut cpu = Cpu::default();
    assert_eq!(0, cpu.add(0xFFFF_FFFF, 1));
    assert_eq!(Z | C, flags(&cpu));
    assert_eq!(0x8000_0000, cpu.add(0x7FFF_FFFF, 1));
    assert_eq!(N | V, flags(&cpu));
}

#[test]
fn sub_flags() {
    let mut cpu = Cpu::default();
    assert_eq!(0, cpu.sub(5, 5));
    assert_eq!(Z | C, flags(&cpu));
    assert_eq!(0xFFFF_FFFF, cpu.sub(0, 1));
    assert_eq!(N, flags(&cpu));
    assert_eq!(0x7FFF_FFFF, cpu.sub(0x8000_0000, 1));
    assert_eq!(C | V, flags(&cpu));
    assert_eq!(0xFFFF_FFFB, cpu.neg(5));
}

#[test]
fn adc_and_sbc_carry() {
    let mut cpu = Cpu::default();
    assert_eq!(3, cpu.adc(1, 1, 1));
    assert_eq!(0, flags(&cpu));
    assert_eq!(0, cpu.adc(0xFFFF_FFFF, 0, 1));
    assert_eq!(Z | C, flags(&cpu));
    assert_eq!(3, cpu.sbc(5, 1, 0));
    assert_eq!(C, flags(&cpu));
    assert_eq!(cpu.sbc(9, 4, 1), {
        let mut other = Cpu::default();
        other.sub(9, 4)
    });
}

#[test]
fn logic_ops() {
    let mut cpu = Cpu::default();
    assert_eq!(0x0F, cpu.and(0xFF, 0x0F));
    assert_eq!(0xFF, cpu.or(0xF0, 0x0F));
    assert_eq!(0, cpu.xor(0xAA, 0xAA));
    assert_eq!(Z, flags(&cpu));
    assert_eq!(0xF0, cpu.bit_clear(0xFF, 0x0F));
    assert_eq!(0xFFFF_FF00, cpu.not(0xFF));
    assert_eq!(N, flags(&cpu));
    assert_eq!(6, cpu.mul(2, 3));
}

#[test]
fn shifts() {
    let mut cpu = Cpu::default();
    assert_eq!(16, cpu.lsl(1, 4));
    assert!(!cpu.flag(Flag::Carry));
    assert_eq!(2, cpu.lsl(0x8000_0001, 1));
    assert!(cpu.flag(Flag::Carry));
    assert_eq!(0x4000_0000, cpu.lsr::<false>(0x8000_0000, 1));
    assert!(!cpu.flag(Flag::Carry));
    assert_eq!(0, cpu.lsr::<true>(0x8000_0000, 0));
    assert!(cpu.flag(Flag::Carry));
    assert_eq!(0xC000_0000, cpu.asr::<false>(0x8000_0000, 1));
    assert_eq!(0xFFFF_FFFF, cpu.asr::<true>(0x8000_0000, 0));
    assert!(cpu.flag(Flag::Carry));
    assert_eq!(0x8000_0000, cpu.ror::<false>(1, 1));
    assert!(cpu.flag(Flag::Carry));
    assert_eq!(0x1234_5678, Cpu::ror_s0(0x1234_5678, 32));
    assert_eq!(0x8123_4567, Cpu::ror_s0(0x1234_5678, 4));
}

#[test]
fn set_zn_from_value() {
    let mut cpu = Cpu::default();
    cpu.set_zn(0);
    assert!(cpu.flag(Flag::Zero) && !cpu.flag(Flag::Neg));
    cpu.set_zn(0x8000_0000);
    assert!(!cpu.flag(Flag::Zero) && cpu.flag(Flag::Neg));
}

use gamegirl::ggc::cpu::{Cpu, DReg, Flag, Interrupt, Reg};

fn cpu() -> Cpu {
    Cpu::default()
}

#[test]
fn f_keeps_only_high_nibble() {
    let mut c = cpu();
    c.set_reg(Reg::F, 0xFF);
    assert_eq!(0xF0, c.reg(Reg::F));
    c.set_reg(Reg::A, 0xFF);
    assert_eq!(0xFF, c.reg(Reg::A));
}

#[test]
fn double_register_round_trip() {
    let mut c = cpu();
    c.set_dreg(DReg::BC, 0x1234);
    assert_eq!(0x12, c.reg(Reg::B));
    assert_eq!(0x34, c.reg(Reg::C));
    assert_eq!(0x1234, c.dreg(DReg::BC));
    c.set_dreg(DReg::AF, 0xABCD);
    assert_eq!(0xABC0, c.dreg(DReg::AF));
}

#[test]
fn flags_set_and_clear() {
    let mut c = cpu();
    c.set_fl(Flag::Carry, true);
    assert!(c.flag(Flag::Carry));
    assert_eq!(0x10, c.reg(Reg::F));
    c.set_fli(Flag::Zero, 5);
    assert_eq!(0x90, c.reg(Reg::F));
    c.set_fli16(Flag::Carry, 0);
    assert_eq!(0x80, c.reg(Reg::F));
    assert_eq!(0x20, Flag::HalfCarry.mask());
    assert_eq!(6, Flag::Negative.bit());
    assert_eq!(0, Flag::Zero.from(0));
    assert_eq!(0x80, Flag::Zero.from(3));
}

#[test]
fn register_indices_and_pairs() {
    assert_eq!(0, Reg::A.i());
    assert_eq!(7, Reg::L.i());
    assert_eq!(Reg::L, DReg::HL.low());
    assert_eq!(Reg::H, DReg::HL.high());
    assert_eq!(Reg::F, DReg::AF.low());
}

#[test]
fn interrupt_vectors() {
    assert_eq!(0x40, Interrupt::VBlank.addr());
    assert_eq!(0x60, Interrupt::Joypad.addr());
    assert_eq!(2, Interrupt::Timer.to_index());
    assert_eq!(Interrupt::Serial, Interrupt::from_index(3));
    for i in 0..5u16 {
        assert_eq!(i, Interrupt::from_index(i).to_index());
    }
}

#[test]
fn add_sets_half_carry_and_carry() {
    let mut c = cpu();
    let r = c.add(0x0F, 0x01, 0, true);
    assert_eq!(0x10, r);
    assert_eq!(0x20, c.reg(Reg::F));
    let r = c.add(0xFF, 0x01, 0, true);
    assert_eq!(0x00, r);
    assert_eq!(0xB0, c.reg(Reg::F));
}

#[test]
fn add_without_carry_update_keeps_carry() {
    let mut c = cpu();
    c.set_fl(Flag::Carry, true);
    let r = c.add(0x01, 0x01, 0, false);
    assert_eq!(2, r);
    assert_eq!(0x10, c.reg(Reg::F));
}

#[test]
fn sub_sets_negative_and_borrow() {
    let mut c = cpu();
    let r = c.sub(0x10, 0x01, 0, true);
    assert_eq!(0x0F, r);
    assert_eq!(0x60, c.reg(Reg::F));
    let r = c.sub(0x00, 0x01, 0, true);
    assert_eq!(0xFF, r);
    assert_eq!(0x70, c.reg(Reg::F));
    let r = c.sub(0x05, 0x05, 0, true);
    assert_eq!(0, r);
    assert_eq!(0xC0, c.reg(Reg::F));
}

#[test]
fn add_16_to_hl() {
    let mut c = cpu();
    c.set_dreg(DReg::HL, 0x0FFF);
    c.add_16_hl(1);
    assert_eq!(0x1000, c.dreg(DReg::HL));
    assert_eq!(0x20, c.reg(Reg::F));
    c.set_dreg(DReg::HL, 0xFFFF);
    c.add_16_hl(2);
    assert_eq!(1, c.dreg(DReg::HL));
    assert_eq!(0x30, c.reg(Reg::F));
}

#[test]
fn add_signed_to_sp() {
    let mut c = cpu();
    c.sp = 0x00FF;
    assert_eq!(0x00FE, c.add_sp(-1));
    assert_eq!(0x30, c.reg(Reg::F));
    c.sp = 0x1000;
    assert_eq!(0x1010, c.add_sp(16));
    assert_eq!(0x00, c.reg(Reg::F));
}

#[test]
fn rotates_and_shifts() {
    let mut c = cpu();
    assert_eq!(0x03, c.rlc(0x81, true));
    assert_eq!(0x10, c.reg(Reg::F));
    assert_eq!(0xC0, c.rrc(0x81, true));
    assert_eq!(0x10, c.reg(Reg::F));
    assert_eq!(0x03, c.rl(0x81, true));
    assert_eq!(0x10, c.reg(Reg::F));
    assert_eq!(0x80, c.rr(0x00, true));
    assert_eq!(0x00, c.reg(Reg::F));
    assert_eq!(0x00, c.sla(0x80));
    assert_eq!(0x90, c.reg(Reg::F));
    assert_eq!(0xC0, c.sra(0x81));
    assert_eq!(0x10, c.reg(Reg::F));
    assert_eq!(0x40, c.srl(0x81));
    assert_eq!(0x21, c.swap(0x12));
    assert_eq!(0x00, c.reg(Reg::F));
    assert_eq!(0x00, c.swap(0x00));
    assert_eq!(0x80, c.reg(Reg::F));
}

#[test]
fn rotate_without_zero_flag() {
    let mut c = cpu();
    assert_eq!(0, c.rlc(0, false));
    assert_eq!(0, c.reg(Reg::F));
}

#[test]
fn rotate_left_then_right_is_identity() {
    let mut c = cpu();
    for v in 0..=255u8 {
        let l = c.rlc(v, true);
        assert_eq!(v, c.rrc(l, true));
    }
}

#[test]
fn rotate_through_carry_inverse() {
    let mut c = cpu();
    c.set_fl(Flag::Carry, true);
    let l = c.rl(0x42, true);
    assert_eq!(0x85, l);
    assert!(!c.flag(Flag::Carry));
    assert_eq!(0x42, c.rr(l, true));
    assert!(c.flag(Flag::Carry));
}

#[test]
fn swap_twice_is_identity() {
    let mut c = cpu();
    for v in 0..=255u8 {
        let s = c.swap(v);
        assert_eq!(v, c.swap(s));
    }
}

#[test]
fn bit_test_sets_zero_for_clear_bit() {
    let mut c = cpu();
    c.set_fl(Flag::Carry, true);
    assert_eq!(0x04, c.bit(0x04, 2));
    assert_eq!(0x30, c.reg(Reg::F));
    c.bit(0x04, 3);
    assert_eq!(0xB0, c.reg(Reg::F));
    assert_eq!(0, c.z_flag_only(0));
    assert_eq!(0x80, c.reg(Reg::F));
}

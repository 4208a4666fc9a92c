//! Arithmetic, rotate and shift operations of the GG CPU, with their
//! effects on the flags.
use vstd::prelude::*;
use crate::ggc::cpu::{bit8, flag_bit, lemma_with_bit8, reg_index, with_bit8, Cpu, DReg, Flag, Reg};

verus! {

/// Rotate a byte left by one.
pub open spec fn rotl1(v: u8) -> u8 {
    ((v * 2) % 256 + v / 128) as u8
}

/// Rotate a byte right by one.
pub open spec fn rotr1(v: u8) -> u8 {
    (v / 2 + (v % 2) * 128) as u8
}

/// Shift a byte left by one, shifting in the given bit.
pub open spec fn shl_in(v: u8, bit0: bool) -> u8 {
    ((v * 2) % 256 + if bit0 { 1int } else { 0int }) as u8
}

/// Shift a byte right by one, shifting in the given bit.
pub open spec fn shr_in(v: u8, bit7: bool) -> u8 {
    (v / 2 + if bit7 { 128int } else { 0int }) as u8
}

/// Swap the nibbles of a byte.
pub open spec fn swap_nibbles(v: u8) -> u8 {
    ((v % 16) * 16 + v / 16) as u8
}

/// F holding only Carry (if set) and Zero (if set).
pub open spec fn f_cz(carry: bool, zero: bool) -> u8 {
    ((if carry { 0x10int } else { 0int }) + (if zero { 0x80int } else { 0int })) as u8
}

/// If bit 4 of a value is set: a carry out of the low nibble.
pub open spec fn bit4(x: int) -> bool {
    (x / 16) % 2 == 1
}

/// A 16-bit value taken modulo 2^16.
pub open spec fn wrap16(x: int) -> int {
    x % 0x1_0000
}

/// F after an 8-bit addition.
pub open spec fn f_after_add(f: u8, a: u16, b: u16, c: u16, set_carry: bool) -> u8 {
    let z = with_bit8(f, 7, (a + b + c) % 256 == 0);
    let n = with_bit8(z, 6, false);
    let h = with_bit8(n, 5, bit4(a % 16 + b % 16 + c));
    if set_carry {
        with_bit8(h, 4, ((a % 256 + b % 256 + c) / 256) % 2 == 1)
    } else {
        h
    }
}

/// F after an 8-bit subtraction.
pub open spec fn f_after_sub(f: u8, a: u16, b: u16, c: u16, set_carry: bool) -> u8 {
    let z = with_bit8(f, 7, wrap16(a - b - c) % 256 == 0);
    let n = with_bit8(z, 6, true);
    let h = with_bit8(n, 5, bit4(wrap16(a % 16 - b % 16 - c)));
    if set_carry {
        with_bit8(h, 4, ((wrap16(a % 256 - b % 256 - c)) / 256) % 2 == 1)
    } else {
        h
    }
}

/// Only F changed, to the given value.
pub open spec fn only_f(before: Cpu, after: Cpu, f: u8) -> bool {
    &&& after.regs@ == before.regs@.update(5, f)
    &&& after.pc == before.pc
    &&& after.sp == before.sp
    &&& after.ime == before.ime
    &&& after.halt_bug == before.halt_bug
}

impl Cpu {
    /// 8-bit addition; c is the value of the carry, only used by ADC.
    pub fn add(&mut self, a: u16, b: u16, c: u16, set_carry: bool) -> (r: u16)
        requires
            a + b + c <= u16::MAX,
        ensures
            r == (a + b + c) % 256,
            only_f(*old(self), *final(self), f_after_add(old(self).reg_spec(Reg::F), a, b, c, set_carry)),
    {
        let result = a + b + c;
        self.set_fl(Flag::Zero, result % 256 == 0);
        self.set_fl(Flag::Negative, false);
        self.set_fl(Flag::HalfCarry, ((a % 16 + b % 16 + c) / 16) % 2 == 1);
        if set_carry {
            self.set_fl(Flag::Carry, ((a % 256 + b % 256 + c) / 256) % 2 == 1);
        }
        proof {
            assert(self.regs@ =~= old(self).regs@.update(
                5,
                f_after_add(old(self).reg_spec(Reg::F), a, b, c, set_carry),
            ));
        }
        result % 256
    }

    /// 8-bit subtraction; c is the value of the carry, only used by SBC.
    pub fn sub(&mut self, a: u16, b: u16, c: u16, set_carry: bool) -> (r: u16)
        ensures
            r == wrap16(a - b - c) % 256,
            only_f(*old(self), *final(self), f_after_sub(old(self).reg_spec(Reg::F), a, b, c, set_carry)),
    {
        let result = a.wrapping_sub(b).wrapping_sub(c);
        let half = (a % 16).wrapping_sub(b % 16).wrapping_sub(c);
        let full = (a % 256).wrapping_sub(b % 256).wrapping_sub(c);
        proof {
            lemma_wrap16_sub(a as int, b as int, c as int);
            lemma_wrap16_sub((a % 16) as int, (b % 16) as int, c as int);
            lemma_wrap16_sub((a % 256) as int, (b % 256) as int, c as int);
        }
        self.set_fl(Flag::Zero, result % 256 == 0);
        self.set_fl(Flag::Negative, true);
        self.set_fl(Flag::HalfCarry, (half / 16) % 2 == 1);
        if set_carry {
            self.set_fl(Flag::Carry, (full / 256) % 2 == 1);
        }
        proof {
            assert(self.regs@ =~= old(self).regs@.update(
                5,
                f_after_sub(old(self).reg_spec(Reg::F), a, b, c, set_carry),
            ));
        }
        result % 256
    }

    /// 16-bit addition to HL.
    pub fn add_16_hl(&mut self, other: u16)
        ensures
            final(self).dreg_spec(DReg::HL) == wrap16(old(self).dreg_spec(DReg::HL) + other),
            final(self).reg_spec(Reg::F) == with_bit8(
                with_bit8(
                    with_bit8(old(self).reg_spec(Reg::F), 6, false),
                    5,
                    old(self).dreg_spec(DReg::HL) % 4096 + other % 4096 >= 4096,
                ),
                4,
                old(self).dreg_spec(DReg::HL) + other >= 0x1_0000,
            ),
            forall|i: int| 0 <= i < 5 ==> final(self).regs[i] == old(self).regs[i],
            final(self).pc == old(self).pc && final(self).sp == old(self).sp,
            final(self).ime == old(self).ime && final(self).halt_bug == old(self).halt_bug,
    {
        let hl = self.dreg(DReg::HL);
        let result = hl.wrapping_add(other);
        self.set_fl(Flag::Negative, false);
        self.set_fl(Flag::HalfCarry, hl % 4096 + other % 4096 >= 4096);
        self.set_fl(Flag::Carry, (hl as u32 + other as u32) >= 0x1_0000);
        let ghost mid = self.regs@;
        self.set_dreg(DReg::HL, result);
        proof {
            assert(self.regs[5] == mid[5]);
            assert(self.reg_spec(Reg::H) == (result / 256) as u8);
            assert(self.reg_spec(Reg::L) == (result % 256) as u8);
        }
    }

    /// SP plus a signed byte, as `ADD SP, e` and `LD HL, SP+e` compute it.
    /// Returns the sum; the flags come from the unsigned low byte and nibble.
    pub fn add_sp(&mut self, value: i8) -> (r: u16)
        ensures
            r == wrap16(old(self).sp + value),
            only_f(
                *old(self),
                *final(self),
                with_bit8(
                    with_bit8(
                        with_bit8(with_bit8(old(self).reg_spec(Reg::F), 7, false), 6, false),
                        5,
                        old(self).sp % 16 + (value as int % 256) % 16 >= 16,
                    ),
                    4,
                    old(self).sp % 256 + value as int % 256 >= 256,
                ),
            ),
    {
        let byte: u16 = if value < 0 {
            (value as i16 + 256) as u16
        } else {
            value as u16
        };
        self.set_fl(Flag::Zero, false);
        self.set_fl(Flag::Negative, false);
        self.set_fl(Flag::HalfCarry, self.sp % 16 + byte % 16 >= 16);
        self.set_fl(Flag::Carry, self.sp % 256 + byte >= 256);
        proof {
            assert(self.regs@ =~= old(self).regs@.update(5, self.regs[5]));
        }
        self.sp.wrapping_add_signed(value as i16)
    }

    /// Rotate left; Carry gets the old bit 7.
    pub fn rlc(&mut self, value: u8, maybe_set_z: bool) -> (r: u8)
        ensures
            r == rotl1(value),
            only_f(*old(self), *final(self), f_cz(value >= 128, maybe_set_z && r == 0)),
    {
        let result = (value % 128) * 2 + value / 128;
        let f = Flag::Carry.from(value / 128) + if maybe_set_z && result == 0 {
            Flag::Zero.mask()
        } else {
            0
        };
        self.set_reg(Reg::F, f);
        proof {
            lemma_f_cz_masked(value >= 128, maybe_set_z && result == 0);
        }
        result
    }

    /// Rotate right; Carry gets the old bit 0.
    pub fn rrc(&mut self, value: u8, maybe_set_z: bool) -> (r: u8)
        ensures
            r == rotr1(value),
            only_f(*old(self), *final(self), f_cz(value % 2 == 1, maybe_set_z && r == 0)),
    {
        let result = value / 2 + (value % 2) * 128;
        let f = Flag::Carry.from(value % 2) + if maybe_set_z && result == 0 {
            Flag::Zero.mask()
        } else {
            0
        };
        self.set_reg(Reg::F, f);
        proof {
            lemma_f_cz_masked(value % 2 == 1, maybe_set_z && result == 0);
        }
        result
    }

    /// Rotate left through Carry.
    pub fn rl(&mut self, value: u8, maybe_set_z: bool) -> (r: u8)
        ensures
            r == shl_in(value, old(self).flag_spec(Flag::Carry)),
            only_f(*old(self), *final(self), f_cz(value >= 128, maybe_set_z && r == 0)),
    {
        let carry = self.flag(Flag::Carry);
        let result = (value % 128) * 2 + if carry {
            1
        } else {
            0
        };
        let f = Flag::Carry.from(value / 128) + if maybe_set_z && result == 0 {
            Flag::Zero.mask()
        } else {
            0
        };
        self.set_reg(Reg::F, f);
        proof {
            lemma_f_cz_masked(value >= 128, maybe_set_z && result == 0);
        }
        result
    }

    /// Rotate right through Carry.
    pub fn rr(&mut self, value: u8, maybe_set_z: bool) -> (r: u8)
        ensures
            r == shr_in(value, old(self).flag_spec(Flag::Carry)),
            only_f(*old(self), *final(self), f_cz(value % 2 == 1, maybe_set_z && r == 0)),
    {
        let carry = self.flag(Flag::Carry);
        let result = value / 2 + if carry {
            128
        } else {
            0
        };
        let f = Flag::Carry.from(value % 2) + if maybe_set_z && result == 0 {
            Flag::Zero.mask()
        } else {
            0
        };
        self.set_reg(Reg::F, f);
        proof {
            lemma_f_cz_masked(value % 2 == 1, maybe_set_z && result == 0);
        }
        result
    }

    /// Shift left arithmetic.
    pub fn sla(&mut self, value: u8) -> (r: u8)
        ensures
            r == shl_in(value, false),
            only_f(*old(self), *final(self), f_cz(value >= 128, r == 0)),
    {
        let result = (value % 128) * 2;
        let f = Flag::Carry.from(value / 128) + if result == 0 {
            Flag::Zero.mask()
        } else {
            0
        };
        self.set_reg(Reg::F, f);
        proof {
            lemma_f_cz_masked(value >= 128, result == 0);
        }
        result
    }

    /// Shift right arithmetic: bit 7 stays.
    pub fn sra(&mut self, value: u8) -> (r: u8)
        ensures
            r == shr_in(value, value >= 128),
            only_f(*old(self), *final(self), f_cz(value % 2 == 1, r == 0)),
    {
        let result = value / 2 + if value >= 128 {
            128
        } else {
            0
        };
        let f = Flag::Carry.from(value % 2) + if result == 0 {
            Flag::Zero.mask()
        } else {
            0
        };
        self.set_reg(Reg::F, f);
        proof {
            lemma_f_cz_masked(value % 2 == 1, result == 0);
        }
        result
    }

    /// Swap the nibbles.
    pub fn swap(&mut self, value: u8) -> (r: u8)
        ensures
            r == swap_nibbles(value),
            only_f(*old(self), *final(self), f_cz(false, r == 0)),
    {
        let upper = value / 16;
        let lower = (value % 16) * 16;
        let f = if (upper + lower) == 0 {
            Flag::Zero.mask()
        } else {
            0
        };
        self.set_reg(Reg::F, f);
        proof {
            lemma_f_cz_masked(false, upper + lower == 0);
        }
        lower + upper
    }

    /// Shift right logical.
    pub fn srl(&mut self, value: u8) -> (r: u8)
        ensures
            r == shr_in(value, false),
            only_f(*old(self), *final(self), f_cz(value % 2 == 1, r == 0)),
    {
        let result = value / 2;
        let f = Flag::Carry.from(value % 2) + if result == 0 {
            Flag::Zero.mask()
        } else {
            0
        };
        self.set_reg(Reg::F, f);
        proof {
            lemma_f_cz_masked(value % 2 == 1, result == 0);
        }
        result
    }

    /// Test a bit: Zero is set if it is clear.
    pub fn bit(&mut self, value: u8, bit: u16) -> (r: u8)
        requires
            bit < 8,
        ensures
            r == value,
            only_f(
                *old(self),
                *final(self),
                with_bit8(
                    with_bit8(with_bit8(old(self).reg_spec(Reg::F), 7, !bit8(value, bit as u8)), 6, false),
                    5,
                    true,
                ),
            ),
    {
        let b = (value >> (bit as u8)) & 1;
        self.set_fli(Flag::Zero, b ^ 1);
        self.set_fl(Flag::Negative, false);
        self.set_fl(Flag::HalfCarry, true);
        proof {
            assert(b == 0 || b == 1) by (bit_vector)
                requires
                    b == (value >> (bit as u8)) & 1,
            ;
            assert((b ^ 1) != 0 <==> b != 1) by (bit_vector)
                requires
                    b == 0 || b == 1,
            ;
            assert(self.regs@ =~= old(self).regs@.update(5, self.regs[5]));
        }
        value
    }

    /// Set F to only the Zero flag, from the value.
    pub fn z_flag_only(&mut self, value: u8) -> (r: u8)
        ensures
            r == value,
            only_f(*old(self), *final(self), f_cz(false, value == 0)),
    {
        if value == 0 {
            self.set_reg(Reg::F, Flag::Zero.mask())
        } else {
            self.set_reg(Reg::F, 0)
        }
        proof {
            lemma_f_cz_masked(false, value == 0);
        }
        value
    }
}

/// The flags of an 8-bit addition: Z when the byte result is 0, N clear,
/// H on a carry out of the low nibble, C (where set) on a carry out of the
/// byte. The other bits of F stay.
pub proof fn lemma_add_flags(f: u8, a: u16, b: u16, c: u16)
    requires
        a < 256,
        b < 256,
        c <= 1,
    ensures
        bit8(f_after_add(f, a, b, c, true), 7) == ((a + b + c) % 256 == 0),
        !bit8(f_after_add(f, a, b, c, true), 6),
        bit8(f_after_add(f, a, b, c, true), 5) == (a % 16 + b % 16 + c > 15),
        bit8(f_after_add(f, a, b, c, true), 4) == (a + b + c > 255),
        bit8(f_after_add(f, a, b, c, false), 4) == bit8(f, 4),
        forall|m: u8| m < 4 ==> #[trigger] bit8(f_after_add(f, a, b, c, true), m) == bit8(f, m),
{
    let z = with_bit8(f, 7, (a + b + c) % 256 == 0);
    let n = with_bit8(z, 6, false);
    let hc = bit4(a % 16 + b % 16 + c);
    let h = with_bit8(n, 5, hc);
    let cc = ((a % 256 + b % 256 + c) / 256) % 2 == 1;
    assert(hc == (a % 16 + b % 16 + c > 15));
    assert(cc == (a + b + c > 255));
    lemma_with_bit8(f, 7, (a + b + c) % 256 == 0);
    lemma_with_bit8(z, 6, false);
    lemma_with_bit8(n, 5, hc);
    lemma_with_bit8(h, 4, cc);
}

/// The flags of an 8-bit subtraction: Z when the byte result is 0, N set,
/// H on a borrow from the high nibble, C (where set) on a borrow. The
/// other bits of F stay.
pub proof fn lemma_sub_flags(f: u8, a: u16, b: u16, c: u16)
    requires
        a < 256,
        b < 256,
        c <= 1,
    ensures
        bit8(f_after_sub(f, a, b, c, true), 7) == ((a - b - c) % 256 == 0),
        bit8(f_after_sub(f, a, b, c, true), 6),
        bit8(f_after_sub(f, a, b, c, true), 5) == (a % 16 < b % 16 + c),
        bit8(f_after_sub(f, a, b, c, true), 4) == (a < b + c),
        bit8(f_after_sub(f, a, b, c, false), 4) == bit8(f, 4),
        forall|m: u8| m < 4 ==> #[trigger] bit8(f_after_sub(f, a, b, c, true), m) == bit8(f, m),
{
    let zc = wrap16(a - b - c) % 256 == 0;
    let z = with_bit8(f, 7, zc);
    let n = with_bit8(z, 6, true);
    let hc = bit4(wrap16(a % 16 - b % 16 - c));
    let h = with_bit8(n, 5, hc);
    let cc = ((wrap16(a % 256 - b % 256 - c)) / 256) % 2 == 1;
    let x = a - b - c;
    if x >= 0 {
        assert(wrap16(x) == x);
    } else {
        assert(wrap16(x) == x + 0x1_0000);
        assert((x + 0x1_0000) % 256 == x % 256);
    }
    assert(zc == (x % 256 == 0));
    let y = a % 16 - b % 16 - c;
    if y >= 0 {
        assert(wrap16(y) == y);
    } else {
        assert(wrap16(y) == y + 0x1_0000);
    }
    assert(hc == (a % 16 < b % 16 + c));
    let w = a % 256 - b % 256 - c;
    assert(a % 256 == a && b % 256 == b);
    if w >= 0 {
        assert(wrap16(w) == w);
    } else {
        assert(wrap16(w) == w + 0x1_0000);
    }
    assert(cc == (a < b + c));
    lemma_with_bit8(f, 7, zc);
    lemma_with_bit8(z, 6, true);
    lemma_with_bit8(n, 5, hc);
    lemma_with_bit8(h, 4, cc);
}

/// Two wrapping subtractions take the difference modulo 2^16.
proof fn lemma_wrap16_sub(a: int, b: int, c: int)
    requires
        0 <= a < 0x1_0000,
        0 <= b < 0x1_0000,
        0 <= c < 0x1_0000,
    ensures
        ({
            let ab = if a - b < 0 { a - b + 0x1_0000 } else { a - b };
            let abc = if ab - c < 0 { ab - c + 0x1_0000 } else { ab - c };
            abc == wrap16(a - b - c)
        }),
{
}

/// Values of F with only Carry and Zero pass the write mask of F.
proof fn lemma_f_cz_masked(carry: bool, zero: bool)
    ensures
        f_cz(carry, zero) & 0xF0 == f_cz(carry, zero),
{
    assert(0x10u8 & 0xF0 == 0x10 && 0x80u8 & 0xF0 == 0x80 && 0x90u8 & 0xF0 == 0x90 && 0u8 & 0xF0
        == 0) by (bit_vector);
}

/// Rotating left and then right (or the other way) gives the byte back.
pub proof fn lemma_rotate_inverse(v: u8)
    ensures
        rotr1(rotl1(v)) == v,
        rotl1(rotr1(v)) == v,
{
}

/// Rotating left through carry and then right through the carry that came
/// out gives the byte and the carry back.
pub proof fn lemma_rotate_through_carry_inverse(v: u8, carry: bool)
    ensures
        shr_in(shl_in(v, carry), v >= 128) == v,
        (shl_in(v, carry) % 2 == 1) == carry,
{
}

/// Swapping nibbles twice gives the byte back.
pub proof fn lemma_swap_involution(v: u8)
    ensures
        swap_nibbles(swap_nibbles(v)) == v,
{
}

} // verus!

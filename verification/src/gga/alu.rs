//! The ARM ALU and barrel shifter, with their effects on CPSR.
use vstd::prelude::*;
use crate::gga::registers::{bit_set, lemma_with_bit, with_bit, Cpu, Flag};
use crate::bits::{lemma_bitwise, lemma_shift_round_trips};
use vstd::arithmetic::power2::{lemma2_to64, lemma_pow2_pos, lemma_pow2_strictly_increases, pow2};
use vstd::arithmetic::div_mod::{
    lemma_div_is_ordered_by_denominator, lemma_div_pos_is_pos,
    lemma_fundamental_div_mod, lemma_fundamental_div_mod_converse, lemma_mod_bound,
};
use vstd::bits::{lemma_u32_shl_is_mul, lemma_u32_shr_is_div};

verus! {

/// Shift left, giving 0 when shifting by the width or more.
pub open spec fn shl_or_zero(v: u32, by: u32) -> u32 {
    if by >= 32 {
        0
    } else {
        v << by
    }
}

/// Shift right, giving 0 when shifting by the width or more.
pub open spec fn shr_or_zero(v: u32, by: u32) -> u32 {
    if by >= 32 {
        0
    } else {
        v >> by
    }
}

/// Arithmetic shift right: the vacated bits are copies of the sign bit.
/// Shifting by 32 or more leaves only copies of the sign bit.
pub open spec fn asr_val(v: u32, by: u32) -> u32 {
    if by >= 32 {
        if bit_set(v, 31) {
            0xFFFF_FFFF
        } else {
            0
        }
    } else if bit_set(v, 31) {
        !((!v) >> by)
    } else {
        v >> by
    }
}

/// Rotate right by `by` modulo 32.
pub open spec fn rotr(v: u32, by: u32) -> u32 {
    let n = by % 32;
    if n == 0 {
        v
    } else {
        (v >> n) | (v << ((32 - n) as u32))
    }
}

/// A word read as a two's complement signed number.
pub open spec fn signed(v: u32) -> int {
    if v < 0x8000_0000 {
        v as int
    } else {
        v - 0x1_0000_0000
    }
}

/// If a signed result does not fit 32 bits.
pub open spec fn signed_overflows(v: int) -> bool {
    !(i32::MIN <= v <= i32::MAX)
}

/// CPSR with Zero and Negative set from a result.
pub open spec fn zn(cpsr: u32, value: u32) -> u32 {
    with_bit(with_bit(cpsr, 30, value == 0), 31, bit_set(value, 31))
}

/// CPSR with Zero, Negative and Carry set.
pub open spec fn znc(cpsr: u32, value: u32, carry: bool) -> u32 {
    with_bit(zn(cpsr, value), 29, carry)
}

/// Carry out of a logical shift left by a non-zero amount.
pub open spec fn lsl_carry(value: u32, by: u32) -> bool {
    if by <= 32 {
        bit_set(value, (32 - by) as u32)
    } else {
        false
    }
}

/// Carry out of a logical shift right by a non-zero amount.
pub open spec fn lsr_carry(value: u32, by: u32) -> bool {
    if by <= 32 {
        bit_set(value, (by - 1) as u32)
    } else {
        false
    }
}

/// Overflow flag of an addition with carry, taken from the sign bits of
/// the operands and the result.
pub open spec fn adc_overflow(rs: u32, rn: u32, res: u32) -> bool {
    bit_set(!(rs ^ rn) & (rn ^ res), 31)
}

/// Result of an addition with carry.
pub open spec fn adc_result(rs: u32, rn: u32, c: u32) -> u32 {
    ((rs + rn + c) % 0x1_0000_0000) as u32
}

/// CPSR after an addition with carry.
pub open spec fn adc_cpsr(cpsr: u32, rs: u32, rn: u32, c: u32) -> u32 {
    let res = adc_result(rs, rn, c);
    with_bit(with_bit(zn(cpsr, res), 29, rs + rn + c > u32::MAX), 28, adc_overflow(rs, rn, res))
}

/// CPSR after a subtraction.
pub open spec fn sub_cpsr(cpsr: u32, rs: u32, rn: u32) -> u32 {
    let res = (if rs >= rn { rs - rn } else { rs - rn + 0x1_0000_0000 }) as u32;
    with_bit(znc(cpsr, res, rn <= rs), 28, signed_overflows(signed(rs) - signed(rn)))
}

/// CPSR after an addition.
pub open spec fn add_cpsr(cpsr: u32, rs: u32, rn: u32) -> u32 {
    let res = ((rs + rn) % 0x1_0000_0000) as u32;
    with_bit(znc(cpsr, res, rs + rn > u32::MAX), 28, signed_overflows(signed(rs) + signed(rn)))
}

/// Everything but CPSR stays as it is.
pub open spec fn same_but_cpsr(a: Cpu, b: Cpu) -> bool {
    &&& a.fiqs == b.fiqs
    &&& a.sp == b.sp
    &&& a.lr == b.lr
    &&& a.spsr == b.spsr
    &&& a.low == b.low
    &&& a.pc == b.pc
}

/// Result and CPSR of LSL.
pub open spec fn lsl_out(cpsr: u32, value: u32, by: u32) -> (u32, u32) {
    if by == 0 {
        (value, zn(cpsr, value))
    } else {
        let res = shl_or_zero(value, by);
        (res, znc(cpsr, res, lsl_carry(value, by)))
    }
}

/// Result and CPSR of LSR; with `coerce`, a shift by 0 means a shift by 32.
pub open spec fn lsr_out(cpsr: u32, value: u32, by: u32, coerce: bool) -> (u32, u32) {
    if by == 0 && coerce {
        (0, znc(cpsr, 0, bit_set(value, 31)))
    } else if by == 0 {
        (value, zn(cpsr, value))
    } else {
        let res = shr_or_zero(value, by);
        (res, znc(cpsr, res, lsr_carry(value, by)))
    }
}

/// Result and CPSR of ASR; with `coerce`, a shift by 0 means a shift by 32.
pub open spec fn asr_out(cpsr: u32, value: u32, by: u32, coerce: bool) -> (u32, u32) {
    if by == 0 && coerce {
        let res = asr_val(value, 32);
        (res, znc(cpsr, res, bit_set(value, 31)))
    } else if by == 0 {
        (value, zn(cpsr, value))
    } else {
        let res = asr_val(value, by);
        (res, znc(cpsr, res, bit_set(asr_val(value, (by - 1) as u32), 0)))
    }
}

/// Result and CPSR of ROR; with `coerce`, a rotate by 0 is RRX: rotate
/// right by one through the carry.
pub open spec fn ror_out(cpsr: u32, value: u32, by: u32, coerce: bool) -> (u32, u32) {
    if by == 0 && coerce {
        let res = with_bit(rotr(value, 1), 31, bit_set(cpsr, 29));
        (res, znc(cpsr, res, bit_set(value, 0)))
    } else if by == 0 {
        (value, zn(cpsr, value))
    } else {
        let res = rotr(value, by);
        (res, znc(cpsr, res, bit_set(res, 31)))
    }
}

/// Result of a subtraction, modulo 2^32.
pub open spec fn sub_result(rs: u32, rn: u32) -> u32 {
    (if rs >= rn { rs - rn } else { rs - rn + 0x1_0000_0000 }) as u32
}

/// Result of an addition, modulo 2^32.
pub open spec fn add_result(rs: u32, rn: u32) -> u32 {
    ((rs + rn) % 0x1_0000_0000) as u32
}

fn wshl(v: u32, by: u32) -> (r: u32)
    ensures
        r == shl_or_zero(v, by),
{
    if by >= 32 {
        0
    } else {
        v << by
    }
}

fn wshr(v: u32, by: u32) -> (r: u32)
    ensures
        r == shr_or_zero(v, by),
{
    if by >= 32 {
        0
    } else {
        v >> by
    }
}

fn asr_exec(v: u32, by: u32) -> (r: u32)
    ensures
        r == asr_val(v, by),
{
    let neg = (v >> 31) & 1 == 1;
    if by >= 32 {
        if neg {
            0xFFFF_FFFF
        } else {
            0
        }
    } else if neg {
        !((!v) >> by)
    } else {
        v >> by
    }
}

/// `f` holds the flags N, Z, C and V in bits 31 to 28 and keeps the other
/// bits of `cpsr`.
pub open spec fn nzcv(f: u32, cpsr: u32, n: bool, z: bool, c: bool, v: bool) -> bool {
    &&& bit_set(f, 31) == n && bit_set(f, 30) == z
    &&& bit_set(f, 29) == c && bit_set(f, 28) == v
    &&& forall|m: u32| m < 28 ==> #[trigger] bit_set(f, m) == bit_set(cpsr, m)
}

/// Flags set from a result: N tells that it is negative as a signed word,
/// Z that it is 0; C and V stay.
pub proof fn lemma_zn_flags(cpsr: u32, v: u32)
    ensures
        nzcv(zn(cpsr, v), cpsr, v >= 0x8000_0000, v == 0, bit_set(cpsr, 29), bit_set(cpsr, 28)),
{
    lemma_bitwise(v, v);
    lemma_with_bit(cpsr, 30, v == 0);
    lemma_with_bit(with_bit(cpsr, 30, v == 0), 31, bit_set(v, 31));
}

/// Flags set from a result, a carry and an overflow.
pub proof fn lemma_znco_flags(cpsr: u32, v: u32, c: bool, o: bool)
    ensures
        nzcv(with_bit(znc(cpsr, v, c), 28, o), cpsr, v >= 0x8000_0000, v == 0, c, o),
{
    lemma_zn_flags(cpsr, v);
    lemma_with_bit(zn(cpsr, v), 29, c);
    lemma_with_bit(znc(cpsr, v, c), 28, o);
    let f = with_bit(znc(cpsr, v, c), 28, o);
    assert forall|m: u32| m < 28 implies #[trigger] bit_set(f, m) == bit_set(cpsr, m) by {
        assert(bit_set(f, m) == bit_set(znc(cpsr, v, c), m));
        assert(bit_set(znc(cpsr, v, c), m) == bit_set(zn(cpsr, v), m));
    }
}

/// What the shifter computes, by a non-zero amount `n`: LSR divides by
/// 2^n, ASR divides the signed word by 2^n rounding down, LSL multiplies
/// by 2^n where the product fits; shifting out all 32 bits or more leaves
/// 0 (LSL, LSR) or only copies of the sign (ASR). LSR and ASR with a zero
/// immediate amount shift by 32.
pub proof fn lemma_shift_results(cpsr: u32, v: u32, n: u32, imm: bool)
    ensures
        0 < n < 32 ==> lsr_out(cpsr, v, n, imm).0 == v as nat / pow2(n as nat),
        0 < n < 32 ==> signed(asr_out(cpsr, v, n, imm).0) == signed(v) / pow2(n as nat) as int,
        0 < n < 32 && v * pow2(n as nat) <= u32::MAX ==> lsl_out(cpsr, v, n).0 == v * pow2(n as nat),
        n >= 32 ==> lsl_out(cpsr, v, n).0 == 0 && lsr_out(cpsr, v, n, imm).0 == 0,
        n >= 32 || (n == 0 && imm) ==> signed(asr_out(cpsr, v, n, imm).0) == if signed(v) < 0 {
            -1int
        } else {
            0
        },
        imm ==> lsr_out(cpsr, v, 0, imm).0 == 0,
{
    lemma_bitwise(v, v);
    lemma_bitwise(!v, !v);
    if 0 < n < 32 {
        let d = pow2(n as nat) as int;
        lemma_pow2_pos(n as nat);
        lemma_pow2_strictly_increases(0, n as nat);
        lemma2_to64();
        lemma_u32_shr_is_div(v, n);
        lemma_u32_shr_is_div(!v, n);
        if v * pow2(n as nat) <= u32::MAX {
            lemma_u32_shl_is_mul(v, n);
        }
        if v >= 0x8000_0000 {
            let w = !v;
            assert(w == 0xFFFF_FFFF - v) by {
                lemma_bitwise(0, v);
            }
            let q = w as int / d;
            let m = w as int % d;
            assert(w as int == q * d + m) by {
                lemma_fundamental_div_mod(w as int, d);
            }
            assert(0 <= m < d) by {
                lemma_mod_bound(w as int, d);
            }
            assert(0 <= q <= w) by {
                lemma_div_is_ordered_by_denominator(w as int, 1, d);
                lemma_div_pos_is_pos(w as int, d);
            }
            assert(signed(v) == -1 - w);
            assert((-1 - q) * d + (d - 1 - m) == -1 - w) by (nonlinear_arith)
                requires
                    w as int == q * d + m,
            ;
            lemma_fundamental_div_mod_converse(signed(v), d, -1 - q, d - 1 - m);
            let r = (w >> n);
            assert(r == q);
            assert(!r == 0xFFFF_FFFF - r) by {
                lemma_bitwise(0, r);
            }
        } else {
            assert(v as int / d <= v) by {
                lemma_div_is_ordered_by_denominator(v as int, 1, d);
            }
            lemma_div_pos_is_pos(v as int, d);
        }
    }
}

/// ROR by a non-zero amount rotates: rotating its result back left by the
/// same amount (modulo 32) gives the operand back, and a rotation by a
/// multiple of 32 leaves it as it is. LSL by 1 to 31 moves the operand up:
/// shifted back down, its result is the operand's low bits, and its own
/// low `n` bits are clear.
pub proof fn lemma_rotate_and_lsl(cpsr: u32, v: u32, n: u32, imm: bool)
    ensures
        n != 0 && n % 32 != 0 ==> ({
            let r = ror_out(cpsr, v, n, imm).0;
            (r << (n % 32)) | (r >> ((32 - n % 32) as u32)) == v
        }),
        n != 0 && n % 32 == 0 ==> ror_out(cpsr, v, n, imm).0 == v,
        0 < n < 32 ==> lsl_out(cpsr, v, n).0 >> n == v & (0xFFFF_FFFFu32 >> n),
        0 < n < 32 ==> (lsl_out(cpsr, v, n).0 >> n) << n == lsl_out(cpsr, v, n).0,
{
    lemma_shift_round_trips(v, n % 32);
    lemma_shift_round_trips(v, n);
}

/// Setting a result's Zero and Negative flags twice keeps only the second.
proof fn lemma_zn_twice(cpsr: u32, a: u32, b: u32)
    ensures
        zn(zn(cpsr, a), b) == zn(cpsr, b),
{
    let z1 = a == 0;
    let n1 = bit_set(a, 31);
    let z2 = b == 0;
    let n2 = bit_set(b, 31);
    assert(with_bit(with_bit(with_bit(with_bit(cpsr, 30, z1), 31, n1), 30, z2), 31, n2)
        == with_bit(with_bit(cpsr, 30, z2), 31, n2)) by (bit_vector);
}

/// Sign bits of the overflow formula, and how inverting relates to
/// subtracting.
proof fn lemma_sign_bits(a: u32, b: u32, r: u32)
    ensures
        adc_overflow(a, b, r) <==> ((a >= 0x8000_0000) == (b >= 0x8000_0000) && (r >= 0x8000_0000)
            != (b >= 0x8000_0000)),
        !b == 0xFFFF_FFFF - b,
        a ^ 0xFFFF_FFFFu32 == 0xFFFF_FFFF - a,
{
    assert(bit_set(!(a ^ b) & (b ^ r), 31) <==> ((a >= 0x8000_0000) == (b >= 0x8000_0000) && (r
        >= 0x8000_0000) != (b >= 0x8000_0000))) by (bit_vector);
    assert(!b == 0xFFFF_FFFF - b && a ^ 0xFFFF_FFFFu32 == 0xFFFF_FFFF - a) by (bit_vector);
}

/// Small facts about the low bit.
proof fn lemma_low_bit(x: u32)
    ensures
        (0u32 & 1u32) == 0,
        x >> 0u32 == x,
{
    assert((0u32 & 1u32) == 0 && x >> 0u32 == x) by (bit_vector);
}

impl Cpu {
    /// Set the Zero and Negative flags from a result.
    pub fn set_zn(&mut self, value: u32)
        ensures
            final(self).cpsr == zn(old(self).cpsr, value),
            same_but_cpsr(*final(self), *old(self)),
    {
        self.set_flag(Flag::Zero, value == 0);
        self.set_flag(Flag::Neg, (value >> 31) & 1 == 1);
    }

    fn set_znc(&mut self, value: u32, carry: bool)
        ensures
            final(self).cpsr == znc(old(self).cpsr, value, carry),
            same_but_cpsr(*final(self), *old(self)),
    {
        self.set_zn(value);
        self.set_flag(Flag::Carry, carry);
    }

    /// Logical/Arithmetic shift left
    pub fn lsl(&mut self, value: u32, by: u32) -> (res: u32)
        ensures
            same_but_cpsr(*final(self), *old(self)),
            (res, final(self).cpsr) == lsl_out(old(self).cpsr, value, by),
    {
        if by == 0 {
            self.set_zn(value);
            value
        } else {
            let res = wshl(value, by);
            let c = wshr(value, 32u32.wrapping_sub(by)) & 1 == 1;
            proof {
                lemma_low_bit(value);
            }
            self.set_znc(res, c);
            res
        }
    }

    /// Logical shift right
    pub fn lsr<const COERCE: bool>(&mut self, value: u32, by: u32) -> (res: u32)
        ensures
            same_but_cpsr(*final(self), *old(self)),
            (res, final(self).cpsr) == lsr_out(old(self).cpsr, value, by, COERCE),
    {
        if by == 0 && COERCE {
            let res = wshr(value, 32);
            self.set_znc(res, wshr(value, 31) & 1 == 1);
            res
        } else if by == 0 {
            self.set_zn(value);
            value
        } else {
            let res = wshr(value, by);
            proof {
                lemma_low_bit(value);
            }
            self.set_znc(res, wshr(value, by - 1) & 1 == 1);
            res
        }
    }

    /// Arithmetic shift right
    pub fn asr<const COERCE: bool>(&mut self, value: u32, by: u32) -> (res: u32)
        ensures
            same_but_cpsr(*final(self), *old(self)),
            (res, final(self).cpsr) == asr_out(old(self).cpsr, value, by, COERCE),
    {
        if by == 0 && COERCE {
            let res = asr_exec(value, 32);
            self.set_znc(res, (value >> 31) & 1 == 1);
            res
        } else if by == 0 {
            self.set_zn(value);
            value
        } else {
            let res = asr_exec(value, by);
            let prev = asr_exec(value, by - 1);
            proof {
                lemma_low_bit(prev);
            }
            self.set_znc(res, prev & 1 == 1);
            res
        }
    }

    /// Rotate right
    pub fn ror<const COERCE: bool>(&mut self, value: u32, by: u32) -> (res: u32)
        ensures
            same_but_cpsr(*final(self), *old(self)),
            (res, final(self).cpsr) == ror_out(old(self).cpsr, value, by, COERCE),
    {
        if by == 0 && COERCE {
            let c = self.flag(Flag::Carry);
            let r = Self::ror_s0(value, 1);
            let res = if c {
                r | (1u32 << 31u32)
            } else {
                r & !(1u32 << 31u32)
            };
            self.set_znc(res, value & 1 == 1);
            proof {
                assert((value >> 0u32) & 1 == value & 1) by (bit_vector);
            }
            res
        } else {
            let res = Self::ror_s0(value, by & 31);
            proof {
                assert(by & 31 == by % 32) by (bit_vector);
                assert((by % 32) % 32 == by % 32);
                assert(value == rotr(value, 0));
            }
            if by == 0 {
                self.set_zn(res);
            } else {
                self.set_znc(res, (res >> 31) & 1 == 1);
            }
            res
        }
    }

    /// Rotate right, without setting CPSR
    pub fn ror_s0(value: u32, by: u32) -> (r: u32)
        ensures
            r == rotr(value, by),
    {
        let n = by % 32;
        if n == 0 {
            value
        } else {
            (value >> n) | (value << (32 - n))
        }
    }

    /// Addition
    pub fn add(&mut self, rs: u32, rn: u32) -> (res: u32)
        ensures
            same_but_cpsr(*final(self), *old(self)),
            res == add_result(rs, rn),
            final(self).cpsr == add_cpsr(old(self).cpsr, rs, rn),
    {
        let res = rs.wrapping_add(rn);
        let carry = rs > u32::MAX - rn;
        self.set_znc(res, carry);
        let ov = (rs < 0x8000_0000) == (rn < 0x8000_0000) && (res < 0x8000_0000) != (rs
            < 0x8000_0000);
        self.set_flag(Flag::Overflow, ov);
        res
    }

    /// Subtraction
    pub fn sub(&mut self, rs: u32, rn: u32) -> (res: u32)
        ensures
            same_but_cpsr(*final(self), *old(self)),
            res == sub_result(rs, rn),
            final(self).cpsr == sub_cpsr(old(self).cpsr, rs, rn),
    {
        let res = rs.wrapping_sub(rn);
        self.set_znc(res, rn <= rs);
        let ov = (rs < 0x8000_0000) != (rn < 0x8000_0000) && (res < 0x8000_0000) != (rs
            < 0x8000_0000);
        self.set_flag(Flag::Overflow, ov);
        res
    }

    /// Addition (c -> Carry)
    pub fn adc(&mut self, rs: u32, rn: u32, c: u32) -> (res: u32)
        ensures
            same_but_cpsr(*final(self), *old(self)),
            res == adc_result(rs, rn, c),
            final(self).cpsr == adc_cpsr(old(self).cpsr, rs, rn, c),
    {
        let sum = rs as u64 + rn as u64 + c as u64;
        let res = (sum % 0x1_0000_0000) as u32;
        self.set_zn(res);
        self.set_flag(Flag::Carry, sum > 0xFFFF_FFFF);
        self.set_flag(Flag::Overflow, ((!(rs ^ rn) & (rn ^ res)) >> 31) & 1 == 1);
        res
    }

    /// Subtraction (c -> Carry)
    pub fn sbc(&mut self, rs: u32, rn: u32, c: u32) -> (res: u32)
        ensures
            same_but_cpsr(*final(self), *old(self)),
            res == adc_result(rs, !rn, c),
            final(self).cpsr == adc_cpsr(old(self).cpsr, rs, !rn, c),
    {
        self.adc(rs, !rn, c)
    }

    /// Multiplication
    pub fn mul(&mut self, a: u32, b: u32) -> (res: u32)
        ensures
            same_but_cpsr(*final(self), *old(self)),
            res == (a as nat * b as nat) % 0x1_0000_0000,
            final(self).cpsr == znc(old(self).cpsr, res, false),
    {
        let res = a.wrapping_mul(b);
        self.set_znc(res, false);
        res
    }

    /// Logic AND
    pub fn and(&mut self, a: u32, b: u32) -> (res: u32)
        ensures
            same_but_cpsr(*final(self), *old(self)),
            res == a & b,
            final(self).cpsr == zn(old(self).cpsr, res),
    {
        let res = a & b;
        self.set_zn(res);
        res
    }

    /// Logic OR
    pub fn or(&mut self, a: u32, b: u32) -> (res: u32)
        ensures
            same_but_cpsr(*final(self), *old(self)),
            res == a | b,
            final(self).cpsr == zn(old(self).cpsr, res),
    {
        let res = a | b;
        self.set_zn(res);
        res
    }

    /// Logic XOR
    pub fn xor(&mut self, a: u32, b: u32) -> (res: u32)
        ensures
            same_but_cpsr(*final(self), *old(self)),
            res == a ^ b,
            final(self).cpsr == zn(old(self).cpsr, res),
    {
        let res = a ^ b;
        self.set_zn(res);
        res
    }

    /// Bit clear
    pub fn bit_clear(&mut self, a: u32, b: u32) -> (res: u32)
        ensures
            same_but_cpsr(*final(self), *old(self)),
            res == a & !b,
            final(self).cpsr == zn(old(self).cpsr, res),
    {
        let nb = self.not(b);
        let res = self.and(a, nb);
        proof {
            lemma_zn_twice(old(self).cpsr, nb, res);
        }
        res
    }

    /// Logic NOT
    pub fn not(&mut self, value: u32) -> (res: u32)
        ensures
            same_but_cpsr(*final(self), *old(self)),
            res == !value,
            final(self).cpsr == zn(old(self).cpsr, res),
    {
        let val = value ^ u32::MAX;
        proof {
            assert(value ^ u32::MAX == !value) by (bit_vector);
        }
        self.set_zn(val);
        val
    }

    /// Negate
    pub fn neg(&mut self, value: u32) -> (res: u32)
        ensures
            same_but_cpsr(*final(self), *old(self)),
            res == sub_result(0, value),
            final(self).cpsr == sub_cpsr(old(self).cpsr, 0, value),
    {
        self.sub(0, value)
    }
}

/// The overflow flag of an addition with carry is signed overflow of the
/// full sum, when the carry in is 0 or 1.
pub proof fn lemma_adc_overflow_is_signed(rs: u32, rn: u32, c: u32)
    requires
        c <= 1,
    ensures
        adc_overflow(rs, rn, adc_result(rs, rn, c)) == signed_overflows(
            signed(rs) + signed(rn) + c,
        ),
{
    lemma_sign_bits(rs, rn, adc_result(rs, rn, c));
}

/// ADC with the carry clear computes what ADD computes, flags included.
pub proof fn lemma_adc_without_carry_is_add(cpsr: u32, rs: u32, rn: u32)
    ensures
        adc_result(rs, rn, 0) == (rs + rn) % 0x1_0000_0000,
        adc_cpsr(cpsr, rs, rn, 0) == add_cpsr(cpsr, rs, rn),
{
    lemma_adc_overflow_is_signed(rs, rn, 0);
}

/// SBC with the carry set computes what SUB computes, flags included.
pub proof fn lemma_sbc_with_carry_is_sub(cpsr: u32, rs: u32, rn: u32)
    ensures
        adc_result(rs, !rn, 1) == (if rs >= rn { rs - rn } else { rs - rn + 0x1_0000_0000 }),
        adc_cpsr(cpsr, rs, !rn, 1) == sub_cpsr(cpsr, rs, rn),
{
    lemma_sign_bits(rs, rn, 0);
    lemma_adc_overflow_is_signed(rs, !rn, 1);
    assert(signed(!rn) == -signed(rn) - 1);
}

} // verus!

//! The CPU side of ARM data processing: operand shifts, the ALU operations
//! and PSR transfers. The system around the CPU refills the pipeline and
//! checks for interrupts as the returned effects say.
use vstd::prelude::*;
use crate::bits::{lemma_bitwise, wrap_add};
use crate::gga::alu::{
    add_cpsr, add_result, adc_cpsr, adc_overflow, adc_result, asr_out, lemma_adc_overflow_is_signed,
    lemma_zn_flags, lemma_znco_flags, lsl_out, lsr_out, nzcv, ror_out, rotr, same_but_cpsr, signed, signed_overflows, sub_cpsr, sub_result, zn, znc,
};
use crate::gga::inst_generic::{cond_holds, cond_mnemonic, exception_mode, Exception};
use crate::text::{dec, digits, hex, push_digits};
use vstd::string::StringExecFns;
use crate::gga::registers::{
    bank_of, bit_set, is_mode_bits, lemma_with_bit, mode_of_bits, with_bit, Cpu, Flag, Mode,
};

verus! {

/// Result and flags of ARM data processing operation `op` on the first
/// operand `a` and the shifted second operand `b`. `carry` is the carry in,
/// `d` the destination's old value (kept by the compare operations) and
/// `cpsr` the flags the operation starts from.
pub open spec fn dp_op(op: u32, a: u32, b: u32, carry: bool, d: u32, cpsr: u32) -> (u32, u32) {
    let c: u32 = if carry { 1 } else { 0 };
    if op == 0x0 {
        (a & b, zn(cpsr, a & b))
    } else if op == 0x1 {
        (a ^ b, zn(cpsr, a ^ b))
    } else if op == 0x2 {
        (sub_result(a, b), sub_cpsr(cpsr, a, b))
    } else if op == 0x3 {
        (sub_result(b, a), sub_cpsr(cpsr, b, a))
    } else if op == 0x4 {
        (add_result(a, b), add_cpsr(cpsr, a, b))
    } else if op == 0x5 {
        (adc_result(a, b, c), adc_cpsr(cpsr, a, b, c))
    } else if op == 0x6 {
        (adc_result(a, !b, c), adc_cpsr(cpsr, a, !b, c))
    } else if op == 0x7 {
        (adc_result(b, !a, c), adc_cpsr(cpsr, b, !a, c))
    } else if op == 0x8 {
        (d, zn(cpsr, a & b))
    } else if op == 0x9 {
        (d, zn(cpsr, a ^ b))
    } else if op == 0xA {
        (d, sub_cpsr(cpsr, a, b))
    } else if op == 0xB {
        (d, add_cpsr(cpsr, a, b))
    } else if op == 0xC {
        (a | b, zn(cpsr, a | b))
    } else if op == 0xD {
        (b, zn(cpsr, b))
    } else if op == 0xE {
        (a & !b, zn(cpsr, a & !b))
    } else {
        (!b, zn(cpsr, !b))
    }
}

/// What each logical data processing operation writes, bit by bit, in
/// terms of its operands: AND keeps the bits set in both, EOR undoes
/// itself, ORR keeps every bit set in either, MOV writes the shifted
/// operand, BIC clears from the first operand every bit set in the
/// shifted operand and keeps the others, MVN writes its complement, and
/// the compare and test operations keep the destination.
pub proof fn lemma_dp_logical_results(a: u32, b: u32, carry: bool, d: u32, cpsr: u32)
    ensures
        dp_op(0x0, a, b, carry, d, cpsr).0 & !a == 0,
        dp_op(0x0, a, b, carry, d, cpsr).0 & !b == 0,
        (dp_op(0x0, a, b, carry, d, cpsr).0 | !a | !b) == 0xFFFF_FFFF,
        dp_op(0x1, a, b, carry, d, cpsr).0 ^ b == a,
        dp_op(0xC, a, b, carry, d, cpsr).0 & a == a,
        dp_op(0xC, a, b, carry, d, cpsr).0 & b == b,
        (dp_op(0xC, a, b, carry, d, cpsr).0 & !a) & !b == 0,
        dp_op(0xD, a, b, carry, d, cpsr).0 == b,
        dp_op(0xE, a, b, carry, d, cpsr).0 & b == 0,
        (dp_op(0xE, a, b, carry, d, cpsr).0 | (a & b)) == a,
        dp_op(0xF, a, b, carry, d, cpsr).0 & b == 0,
        (dp_op(0xF, a, b, carry, d, cpsr).0 | b) == 0xFFFF_FFFF,
        forall|op: u32| 0x8 <= op <= 0xB ==> #[trigger] dp_op(op, a, b, carry, d, cpsr).0 == d,
{
    lemma_bitwise(a, b);
}

/// What each arithmetic data processing operation writes, modulo 2^32:
/// ADD and ADC sum the operands (and the carry); SUB and SBC leave what,
/// added back to the shifted operand (and the borrow), gives the first
/// operand; RSB and RSC the same with the operands swapped.
pub proof fn lemma_dp_arith_results(a: u32, b: u32, carry: bool, d: u32, cpsr: u32)
    ensures
        dp_op(0x4, a, b, carry, d, cpsr).0 as int == (a + b) % 0x1_0000_0000,
        dp_op(0x5, a, b, carry, d, cpsr).0 as int == (a + b + if carry { 1int } else { 0 })
            % 0x1_0000_0000,
        (dp_op(0x2, a, b, carry, d, cpsr).0 + b) % 0x1_0000_0000 == a,
        (dp_op(0x3, a, b, carry, d, cpsr).0 + a) % 0x1_0000_0000 == b,
        (dp_op(0x6, a, b, carry, d, cpsr).0 + b + if carry { 0int } else { 1 }) % 0x1_0000_0000
            == a,
        (dp_op(0x7, a, b, carry, d, cpsr).0 + a + if carry { 0int } else { 1 }) % 0x1_0000_0000
            == b,
{
    lemma_bitwise(a, b);
    lemma_bitwise(b, a);
}

/// The flags each data processing operation leaves. The logical
/// operations set N and Z from their result and keep C (which the shifter
/// set) and V. ADD and ADC set C on an unsigned carry out and V on signed
/// overflow of the full sum; SUB, RSB, SBC and RSC set C when nothing is
/// borrowed and V on signed overflow of the full difference. The test and
/// compare operations TST, TEQ, CMP and CMN set the flags that AND, EOR,
/// SUB and ADD would.
pub proof fn lemma_dp_flags(a: u32, b: u32, carry: bool, d: u32, cpsr: u32)
    ensures
        forall|op: u32|
            (op <= 1 || 0xC <= op <= 0xF) ==> nzcv(
                #[trigger] dp_op(op, a, b, carry, d, cpsr).1,
                cpsr,
                dp_op(op, a, b, carry, d, cpsr).0 >= 0x8000_0000,
                dp_op(op, a, b, carry, d, cpsr).0 == 0,
                bit_set(cpsr, 29),
                bit_set(cpsr, 28),
            ),
        nzcv(
            dp_op(0x4, a, b, carry, d, cpsr).1,
            cpsr,
            dp_op(0x4, a, b, carry, d, cpsr).0 >= 0x8000_0000,
            dp_op(0x4, a, b, carry, d, cpsr).0 == 0,
            a + b > u32::MAX,
            signed_overflows(signed(a) + signed(b)),
        ),
        nzcv(
            dp_op(0x5, a, b, carry, d, cpsr).1,
            cpsr,
            dp_op(0x5, a, b, carry, d, cpsr).0 >= 0x8000_0000,
            dp_op(0x5, a, b, carry, d, cpsr).0 == 0,
            a + b + (if carry { 1int } else { 0 }) > u32::MAX,
            signed_overflows(signed(a) + signed(b) + if carry { 1int } else { 0 }),
        ),
        nzcv(
            dp_op(0x2, a, b, carry, d, cpsr).1,
            cpsr,
            dp_op(0x2, a, b, carry, d, cpsr).0 >= 0x8000_0000,
            dp_op(0x2, a, b, carry, d, cpsr).0 == 0,
            b <= a,
            signed_overflows(signed(a) - signed(b)),
        ),
        nzcv(
            dp_op(0x3, a, b, carry, d, cpsr).1,
            cpsr,
            dp_op(0x3, a, b, carry, d, cpsr).0 >= 0x8000_0000,
            dp_op(0x3, a, b, carry, d, cpsr).0 == 0,
            a <= b,
            signed_overflows(signed(b) - signed(a)),
        ),
        nzcv(
            dp_op(0x6, a, b, carry, d, cpsr).1,
            cpsr,
            dp_op(0x6, a, b, carry, d, cpsr).0 >= 0x8000_0000,
            dp_op(0x6, a, b, carry, d, cpsr).0 == 0,
            b + (if carry { 0int } else { 1 }) <= a,
            signed_overflows(signed(a) - signed(b) - if carry { 0int } else { 1 }),
        ),
        nzcv(
            dp_op(0x7, a, b, carry, d, cpsr).1,
            cpsr,
            dp_op(0x7, a, b, carry, d, cpsr).0 >= 0x8000_0000,
            dp_op(0x7, a, b, carry, d, cpsr).0 == 0,
            a + (if carry { 0int } else { 1 }) <= b,
            signed_overflows(signed(b) - signed(a) - if carry { 0int } else { 1 }),
        ),
        dp_op(0x8, a, b, carry, d, cpsr).1 == dp_op(0x0, a, b, carry, d, cpsr).1,
        dp_op(0x9, a, b, carry, d, cpsr).1 == dp_op(0x1, a, b, carry, d, cpsr).1,
        dp_op(0xA, a, b, carry, d, cpsr).1 == dp_op(0x2, a, b, carry, d, cpsr).1,
        dp_op(0xB, a, b, carry, d, cpsr).1 == dp_op(0x4, a, b, carry, d, cpsr).1,
{
    let c: u32 = if carry { 1 } else { 0 };
    lemma_bitwise(a, b);
    lemma_bitwise(b, a);
    lemma_zn_flags(cpsr, a & b);
    lemma_zn_flags(cpsr, a ^ b);
    lemma_zn_flags(cpsr, a | b);
    lemma_zn_flags(cpsr, b);
    lemma_zn_flags(cpsr, a & !b);
    lemma_zn_flags(cpsr, !b);
    lemma_znco_flags(cpsr, add_result(a, b), a + b > u32::MAX, signed_overflows(signed(a) + signed(b)));
    lemma_znco_flags(cpsr, sub_result(a, b), b <= a, signed_overflows(signed(a) - signed(b)));
    lemma_znco_flags(cpsr, sub_result(b, a), a <= b, signed_overflows(signed(b) - signed(a)));
    lemma_adc_overflow_is_signed(a, b, c);
    lemma_adc_overflow_is_signed(a, !b, c);
    lemma_adc_overflow_is_signed(b, !a, c);
    let r5 = adc_result(a, b, c);
    let r6 = adc_result(a, !b, c);
    let r7 = adc_result(b, !a, c);
    lemma_znco_flags(cpsr, r5, a + b + c > u32::MAX, adc_overflow(a, b, r5));
    lemma_znco_flags(cpsr, r6, a + !b + c > u32::MAX, adc_overflow(a, !b, r6));
    lemma_znco_flags(cpsr, r7, b + !a + c > u32::MAX, adc_overflow(b, !a, r7));
    assert(signed(!b) == -signed(b) - 1);
    assert(signed(!a) == -signed(a) - 1);
}

/// If condition `cond` holds for the flags in bits 31 to 28 of `f`.
pub open spec fn cond_holds_in(cond: u16, f: u32) -> bool {
    cond_holds(cond, bit_set(f, 31), bit_set(f, 30), bit_set(f, 29), bit_set(f, 28))
}

/// After a compare of `a` with `b` (CMP), the conditions compare the two
/// words: EQ and NE as equal or not, CS, CC, HI and LS as unsigned
/// numbers, GE, LT, GT and LE as signed ones; AL always holds and the
/// reserved condition never does.
pub proof fn lemma_conditions_after_compare(a: u32, b: u32, carry: bool, d: u32, cpsr: u32)
    ensures
        cond_holds_in(0x0, dp_op(0xA, a, b, carry, d, cpsr).1) == (a == b),
        cond_holds_in(0x1, dp_op(0xA, a, b, carry, d, cpsr).1) == (a != b),
        cond_holds_in(0x2, dp_op(0xA, a, b, carry, d, cpsr).1) == (a >= b),
        cond_holds_in(0x3, dp_op(0xA, a, b, carry, d, cpsr).1) == (a < b),
        cond_holds_in(0x8, dp_op(0xA, a, b, carry, d, cpsr).1) == (a > b),
        cond_holds_in(0x9, dp_op(0xA, a, b, carry, d, cpsr).1) == (a <= b),
        cond_holds_in(0xA, dp_op(0xA, a, b, carry, d, cpsr).1) == (signed(a) >= signed(b)),
        cond_holds_in(0xB, dp_op(0xA, a, b, carry, d, cpsr).1) == (signed(a) < signed(b)),
        cond_holds_in(0xC, dp_op(0xA, a, b, carry, d, cpsr).1) == (signed(a) > signed(b)),
        cond_holds_in(0xD, dp_op(0xA, a, b, carry, d, cpsr).1) == (signed(a) <= signed(b)),
        cond_holds_in(0xE, dp_op(0xA, a, b, carry, d, cpsr).1),
        !cond_holds_in(0xF, dp_op(0xA, a, b, carry, d, cpsr).1),
{
    lemma_dp_flags(a, b, carry, d, cpsr);
    lemma_dp_arith_results(a, b, carry, d, cpsr);
}

/// Result and flags of the shifter: shift type `op` (LSL, LSR, ASR, ROR)
/// by `amount`. An LSL by 0 leaves everything as it is.
pub open spec fn shift_out(cpsr: u32, nn: u32, op: u32, amount: u32, imm: bool) -> (u32, u32) {
    if op + amount == 0 {
        (nn, cpsr)
    } else if op == 0 {
        lsl_out(cpsr, nn, amount)
    } else if op == 1 {
        lsr_out(cpsr, nn, amount, imm)
    } else if op == 2 {
        asr_out(cpsr, nn, amount, imm)
    } else {
        ror_out(cpsr, nn, amount, imm)
    }
}

/// If a mode may access the SPSR and the control bits of CPSR.
pub open spec fn privileged(m: Mode) -> bool {
    m != Mode::User && m != Mode::System
}

/// Effects of an ALU instruction that the system must act on.
#[derive(Copy, Clone, PartialEq, Eq, Structural, Debug)]
pub struct AluEffect {
    /// CPSR was restored from SPSR: interrupts are to be checked and, if
    /// the CPU switched to THUMB, the pipeline refilled.
    pub spsr_restored: bool,
    /// The PC was written: the pipeline is to be refilled.
    pub pc_written: bool,
}

/// Operations that only write flags keep the mode bits of CPSR.
proof fn lemma_flags_keep_mode(cpsr: u32, v: u32, w: u32, c: bool, o: bool)
    ensures
        zn(cpsr, v) & 0x1F == cpsr & 0x1F,
        znc(cpsr, v, c) & 0x1F == cpsr & 0x1F,
        with_bit(with_bit(zn(cpsr, v), 29, c), 28, o) & 0x1F == cpsr & 0x1F,
{
    lemma_with_bit(cpsr, 30, v == 0);
    lemma_with_bit(with_bit(cpsr, 30, v == 0), 31, bit_set(v, 31));
    lemma_with_bit(zn(cpsr, v), 29, c);
    lemma_with_bit(with_bit(zn(cpsr, v), 29, c), 28, o);
}

/// State after a PSR transfer (see `Cpu::msr`).
pub open spec fn msr_post(before: Cpu, after: Cpu, src: u32, flags: bool, ctrl: bool, spsr: bool) -> bool {
    let m = before.mode_spec();
    let base = if spsr { before.spsr[bank_of(m)] } else { before.cpsr };
    let f = if flags { (base & 0x00FF_FFFF) | (src & 0xFF00_0000) } else { base };
    let c = if ctrl && m != Mode::User { (f & 0xFFFF_FF00) | (src & 0xFF) } else { f };
    &&& spsr ==> after.spsr@ == before.spsr@.update(bank_of(m), c) && after.cpsr == before.cpsr
    &&& !spsr ==> after.cpsr == with_bit(c, 5, false) && after.spsr == before.spsr
    &&& after.fiqs == before.fiqs && after.sp == before.sp
    &&& after.lr == before.lr && after.low == before.low
    &&& after.pc == before.pc
}

/// State after ARM data processing (see `Cpu::alu`): the effect and the
/// registers and CPSR in `after`, from the state `before`.
pub open spec fn alu_post(
    before: Cpu,
    after: Cpu,
    e: AluEffect,
    shift_reg: bool,
    op: u32,
    reg_a: u32,
    b: u32,
    dest: u32,
    flags: bool,
    cpsr: u32,
) -> bool {
    let d = before.reg_spec(dest);
    let a = if shift_reg && reg_a >= 15 {
        (before.pc + 4) as u32
    } else {
        before.reg_spec(reg_a)
    };
    let (v, c2) = dp_op(op, a, b, bit_set(cpsr, 29), d, before.cpsr);
    let restore = flags && dest == 15 && privileged(before.mode_spec());
    let c3 = if !flags {
        cpsr
    } else if restore {
        before.spsr[bank_of(before.mode_spec())]
    } else {
        c2
    };
    let mid = Cpu { cpsr: c3, ..before };
    let writes = !(0x8 <= op <= 0xB);
    &&& e.spsr_restored == restore
    &&& e.pc_written == (writes && dest >= 15)
    &&& after.wf()
    &&& after.cpsr == c3
    &&& writes ==> after.reg_spec(dest) == if dest >= 15 {
        v & !((mid.inst_size_spec() - 1) as u32)
    } else {
        v
    }
    &&& writes ==> forall|j: u32|
        j != dest && !(dest == 13 && j >= 15) && !(dest == 14 && j >= 15) && !(dest
            >= 15 && j >= 15) ==> #[trigger] after.reg_spec(j) == mid.reg_spec(j)
    &&& writes ==> Cpu::reg_written(mid, after, dest, v)
    &&& !writes ==> after == mid
}

impl Cpu {
    /// Shift the second operand by a shift type and amount.
    pub fn shifted_op<const IMM: bool>(&mut self, nn: u32, op: u32, shift_amount: u32) -> (r: u32)
        requires
            op + shift_amount <= u32::MAX,
        ensures
            (r, final(self).cpsr) == shift_out(old(self).cpsr, nn, op, shift_amount, IMM),
            same_but_cpsr(*final(self), *old(self)),
    {
        if op + shift_amount == 0 {
            // Special case: no shift
            nn
        } else if op == 0 {
            self.lsl(nn, shift_amount)
        } else if op == 1 {
            self.lsr::<IMM>(nn, shift_amount)
        } else if op == 2 {
            self.asr::<IMM>(nn, shift_amount)
        } else {
            self.ror::<IMM>(nn, shift_amount)
        }
    }

    /// The data processing operation itself, on the current flags.
    fn data_op(&mut self, op: u32, a: u32, b: u32, carry: bool, d: u32) -> (r: u32)
        ensures
            (r, final(self).cpsr) == dp_op(op, a, b, carry, d, old(self).cpsr),
            same_but_cpsr(*final(self), *old(self)),
            final(self).cpsr & 0x1F == old(self).cpsr & 0x1F,
    {
        let c: u32 = if carry {
            1
        } else {
            0
        };
        let r = if op == 0x0 {
            self.and(a, b)
        } else if op == 0x1 {
            self.xor(a, b)
        } else if op == 0x2 {
            self.sub(a, b)
        } else if op == 0x3 {
            self.sub(b, a)
        } else if op == 0x4 {
            self.add(a, b)
        } else if op == 0x5 {
            self.adc(a, b, c)
        } else if op == 0x6 {
            self.sbc(a, b, c)
        } else if op == 0x7 {
            self.sbc(b, a, c)
        } else if op == 0x8 {
            // TST
            self.and(a, b);
            d
        } else if op == 0x9 {
            // TEQ
            self.xor(a, b);
            d
        } else if op == 0xA {
            // CMP
            self.sub(a, b);
            d
        } else if op == 0xB {
            // CMN
            self.add(a, b);
            d
        } else if op == 0xC {
            self.or(a, b)
        } else if op == 0xD {
            // MOV
            self.set_zn(b);
            b
        } else if op == 0xE {
            self.bit_clear(a, b)
        } else {
            self.not(b)
        };
        proof {
            let cp = old(self).cpsr;
            lemma_flags_keep_mode(cp, r, 0, false, false);
            lemma_flags_keep_mode(cp, a & b, 0, false, false);
            lemma_flags_keep_mode(cp, a ^ b, 0, false, false);
            lemma_flags_keep_mode(cp, a | b, 0, false, false);
            lemma_flags_keep_mode(cp, b, 0, false, false);
            lemma_flags_keep_mode(cp, a & !b, 0, false, false);
            lemma_flags_keep_mode(cp, !b, 0, false, false);
            lemma_flags_keep_mode(cp, sub_result(a, b), 0, b <= a, signed_overflows(signed(a) - signed(b)));
            lemma_flags_keep_mode(cp, sub_result(b, a), 0, a <= b, signed_overflows(signed(b) - signed(a)));
            lemma_flags_keep_mode(cp, add_result(a, b), 0, a + b > u32::MAX, signed_overflows(signed(a) + signed(b)));
            lemma_flags_keep_mode(cp, adc_result(a, b, c), 0, a + b + c > u32::MAX, adc_overflow(a, b, adc_result(a, b, c)));
            lemma_flags_keep_mode(cp, adc_result(a, !b, c), 0, a + !b + c > u32::MAX, adc_overflow(a, !b, adc_result(a, !b, c)));
            lemma_flags_keep_mode(cp, adc_result(b, !a, c), 0, b + !a + c > u32::MAX, adc_overflow(b, !a, adc_result(b, !a, c)));
        }
        r
    }

    /// ARM data processing: apply operation `op` to register `reg_a` and
    /// the shifted operand `b`, writing register `dest` unless it is a
    /// compare. Without `flags`, CPSR is put back to `cpsr`, its value
    /// before the operand was shifted; with `flags` and `dest` being the PC
    /// in a privileged mode, CPSR is restored from SPSR.
    pub fn alu<const SHIFT_REG: bool>(
        &mut self,
        op: u32,
        reg_a: u32,
        b: u32,
        dest: u32,
        flags: bool,
        cpsr: u32,
    ) -> (e: AluEffect)
        requires
            old(self).wf(),
            SHIFT_REG && reg_a >= 15 ==> old(self).pc + 4 <= u32::MAX,
            !flags ==> is_mode_bits(cpsr & 0x1F),
            flags && dest == 15 && privileged(old(self).mode_spec()) ==> is_mode_bits(
                old(self).spsr[bank_of(old(self).mode_spec())] & 0x1F,
            ),
        ensures
            alu_post(*old(self), *final(self), e, SHIFT_REG, op, reg_a, b, dest, flags, cpsr),
    {
        let d = self.reg(dest);
        let carry = (cpsr >> 29) & 1 == 1;
        let reg_a = if SHIFT_REG {
            self.reg_pc4(reg_a)
        } else {
            self.reg(reg_a)
        };
        let value = self.data_op(op, reg_a, b, carry, d);
        let mut effect = AluEffect { spsr_restored: false, pc_written: false };

        if !flags {
            // Restore CPSR if we weren't supposed to set flags
            self.cpsr = cpsr;
        } else if dest == 15 && self.mode() != Mode::User && self.mode() != Mode::System {
            // If S=1, not in user/system mode and the dest is the PC, set CPSR to current
            // SPSR, also flush pipeline if switch to Thumb occurred
            self.cpsr = self.spsr();
            effect.spsr_restored = true;
        }

        if !(0x8 <= op && op <= 0xB) {
            // Only write if needed - 8-B should not
            // since they might set PC when they should not
            effect.pc_written = self.set_reg(dest, value);
        }
        effect
    }

    /// PSR transfer to CPSR or SPSR: the flag byte if `flags`, the control
    /// byte if `ctrl` and the mode is privileged. Returns if CPSR was
    /// written, upon which interrupts are to be checked.
    pub fn msr(&mut self, src: u32, flags: bool, ctrl: bool, spsr: bool) -> (cpsr_written: bool)
        requires
            old(self).wf(),
        ensures
            cpsr_written == !spsr,
            msr_post(*old(self), *final(self), src, flags, ctrl, spsr),
    {
        let mut dest = if spsr {
            self.spsr()
        } else {
            self.cpsr
        };

        if flags {
            dest = (dest & 0x00FFFFFF) | (src & 0xFF000000);
        }
        if ctrl && self.mode() != Mode::User {
            dest = (dest & 0xFFFFFF00) | (src & 0xFF);
        }

        if spsr {
            self.set_spsr(dest);
            false
        } else {
            // Thumb flag may not be changed
            dest = dest & !(1u32 << 5u32);
            self.cpsr = dest;
            true
        }
    }

    /// Mnemonic of an ALU operation.
    pub fn alu_mnemonic(opt: u32) -> (r: &'static str)
        ensures
            r@ == alu_mnemonic_spec(opt),
    {
        match opt {
            0x0 => "and",
            0x1 => "eor",
            0x2 => "sub",
            0x3 => "rsb",
            0x4 => "add",
            0x5 => "adc",
            0x6 => "sbc",
            0x7 => "rsc",
            0x8 => "tst",
            0x9 => "teq",
            0xA => "cmp",
            0xB => "cmn",
            0xC => "orr",
            0xD => "mov",
            0xE => "bic",
            _ => "mvn",
        }
    }

    /// Mnemonic of a shift type.
    pub fn shift_type_mnemonic(t: u32) -> (r: &'static str)
        ensures
            r@ == if t == 0 {
                "lsl"@
            } else if t == 1 {
                "lsr"@
            } else if t == 2 {
                "asr"@
            } else {
                "ror"@
            },
    {
        match t {
            0 => "lsl",
            1 => "lsr",
            2 => "asr",
            _ => "ror",
        }
    }
}

/// Mnemonic of an ALU operation.
pub open spec fn alu_mnemonic_spec(opt: u32) -> Seq<char> {
    if opt == 0x0 {
        "and"@
    } else if opt == 0x1 {
        "eor"@
    } else if opt == 0x2 {
        "sub"@
    } else if opt == 0x3 {
        "rsb"@
    } else if opt == 0x4 {
        "add"@
    } else if opt == 0x5 {
        "adc"@
    } else if opt == 0x6 {
        "sbc"@
    } else if opt == 0x7 {
        "rsc"@
    } else if opt == 0x8 {
        "tst"@
    } else if opt == 0x9 {
        "teq"@
    } else if opt == 0xA {
        "cmp"@
    } else if opt == 0xB {
        "cmn"@
    } else if opt == 0xC {
        "orr"@
    } else if opt == 0xD {
        "mov"@
    } else if opt == 0xE {
        "bic"@
    } else {
        "mvn"@
    }
}

/// Width and signedness of a halfword/signed transfer.
#[derive(Copy, Clone, PartialEq, Eq, Structural, Debug)]
pub enum HalfKind {
    /// LDRH/STRH.
    Half,
    /// LDRSB.
    SignedByte,
    /// LDRSH.
    SignedHalf,
}

/// An ARM instruction, decoded from its bits (the condition aside).
#[derive(Copy, Clone, PartialEq, Eq, Structural, Debug)]
pub enum ArmInst {
    /// B/BL: 24-bit word offset.
    Branch { link: bool, offset: u32 },
    /// BX.
    BranchExchange { rn: u32 },
    /// SWI.
    Swi,
    /// MRS: CPSR or SPSR into a register.
    Mrs { spsr: bool, rd: u32 },
    /// MSR from a register.
    MsrReg { spsr: bool, flags: bool, ctrl: bool, rm: u32 },
    /// MSR of an immediate, rotated right by twice `rot`.
    MsrImm { spsr: bool, flags: bool, ctrl: bool, rot: u32, imm: u32 },
    /// SWP/SWPB.
    Swap { byte: bool, rn: u32, rd: u32, rm: u32 },
    /// MUL/MLA.
    Mul { accumulate: bool, set_flags: bool, rd: u32, rn: u32, rs: u32, rm: u32 },
    /// UMAAL, UMULL, UMLAL, SMULL, SMLAL.
    MulLong { op: u32, set_flags: bool, rdhi: u32, rdlo: u32, rs: u32, rm: u32 },
    /// LDM/STM.
    BlockTransfer { pre: bool, up: bool, user: bool, writeback: bool, load: bool, rn: u32, rlist: u32 },
    /// LDR/STR with an immediate or a shifted register offset.
    Transfer {
        reg_offset: bool,
        pre: bool,
        up: bool,
        byte: bool,
        writeback: bool,
        load: bool,
        rn: u32,
        rd: u32,
        offset: u32,
    },
    /// LDRH/STRH/LDRSB/LDRSH with an immediate or a register offset.
    HalfTransfer {
        kind: HalfKind,
        imm_offset: bool,
        pre: bool,
        up: bool,
        writeback: bool,
        load: bool,
        rn: u32,
        rd: u32,
        offset: u32,
    },
    /// Data processing with a register operand, shifted by an immediate
    /// or by a register.
    AluReg { op: u32, set_flags: bool, rn: u32, rd: u32, amount: u32, shift: u32, by_reg: bool, rm: u32 },
    /// Data processing with a rotated immediate.
    AluImm { op: u32, set_flags: bool, rn: u32, rd: u32, rot: u32, imm: u32 },
    /// No instruction matches.
    Unknown,
}

/// The instruction that bits 0-27 of `inst` encode; the first matching
/// encoding wins.
pub open spec fn decoded(inst: u32) -> ArmInst {


    if inst & 0x0E00_0000 == 0x0A00_0000 {
        ArmInst::Branch { link: (inst >> 24u32) & 1 == 1, offset: inst & 0xFF_FFFF }
    } else if inst & 0x0FFF_FFF0 == 0x012F_FF10 {
        ArmInst::BranchExchange { rn: inst & 0xF }
    } else if inst & 0x0F00_0000 == 0x0F00_0000 {
        ArmInst::Swi
    } else if inst & 0x0FFF_0FFF == 0x010F_0000 {
        ArmInst::Mrs { spsr: false, rd: (inst >> 12u32) & 0xF }
    } else if inst & 0x0FFF_0FFF == 0x014F_0000 {
        ArmInst::Mrs { spsr: true, rd: (inst >> 12u32) & 0xF }
    } else if inst & 0x0FB0_FFF0 == 0x0120_F000 {
        ArmInst::MsrReg {
            spsr: (inst >> 22u32) & 1 == 1,
            flags: (inst >> 19u32) & 1 == 1,
            ctrl: (inst >> 16u32) & 1 == 1,
            rm: inst & 0xF,
        }
    } else if inst & 0x0FB0_F000 == 0x0320_F000 {
        ArmInst::MsrImm {
            spsr: (inst >> 22u32) & 1 == 1,
            flags: (inst >> 19u32) & 1 == 1,
            ctrl: (inst >> 16u32) & 1 == 1,
            rot: (inst >> 8u32) & 0xF,
            imm: inst & 0xFF,
        }
    } else {
        decoded_mul_mem(inst)
    }
}

/// Encodings after the branches and PSR transfers.
pub open spec fn decoded_mul_mem(inst: u32) -> ArmInst {
    if inst & 0x0FB0_0FF0 == 0x0100_0090 {
        ArmInst::Swap {
            byte: (inst >> 22u32) & 1 == 1,
            rn: (inst >> 16u32) & 0xF,
            rd: (inst >> 12u32) & 0xF,
            rm: inst & 0xF,
        }
    } else if inst & 0x0FC0_00F0 == 0x0000_0090 {
        ArmInst::Mul {
            accumulate: (inst >> 21u32) & 1 == 1,
            set_flags: (inst >> 20u32) & 1 == 1,
            rd: (inst >> 16u32) & 0xF,
            rn: (inst >> 12u32) & 0xF,
            rs: (inst >> 8u32) & 0xF,
            rm: inst & 0xF,
        }
    } else if inst & 0x0F00_00F0 == 0x0000_0090 {
        ArmInst::MulLong {
            op: (inst >> 21u32) & 7,
            set_flags: (inst >> 20u32) & 1 == 1,
            rdhi: (inst >> 16u32) & 0xF,
            rdlo: (inst >> 12u32) & 0xF,
            rs: (inst >> 8u32) & 0xF,
            rm: inst & 0xF,
        }
    } else if inst & 0x0E00_0000 == 0x0800_0000 {
        ArmInst::BlockTransfer {
            pre: (inst >> 24u32) & 1 == 1,
            up: (inst >> 23u32) & 1 == 1,
            user: (inst >> 22u32) & 1 == 1,
            writeback: (inst >> 21u32) & 1 == 1,
            load: (inst >> 20u32) & 1 == 1,
            rn: (inst >> 16u32) & 0xF,
            rlist: inst & 0xFFFF,
        }
    } else if inst & 0x0E00_0000 == 0x0400_0000 || inst & 0x0E00_0010 == 0x0600_0000 {
        ArmInst::Transfer {
            reg_offset: (inst >> 25u32) & 1 == 1,
            pre: (inst >> 24u32) & 1 == 1,
            up: (inst >> 23u32) & 1 == 1,
            byte: (inst >> 22u32) & 1 == 1,
            writeback: (inst >> 21u32) & 1 == 1,
            load: (inst >> 20u32) & 1 == 1,
            rn: (inst >> 16u32) & 0xF,
            rd: (inst >> 12u32) & 0xF,
            offset: inst & 0xFFF,
        }
    } else {
        decoded_half_alu(inst)
    }
}

/// Encodings after the multiplies and word transfers.
pub open spec fn decoded_half_alu(inst: u32) -> ArmInst {
    if inst & 0x0E40_00F0 == 0x0040_00B0 || inst & 0x0E40_0FF0 == 0x0000_00B0 || inst
        & 0x0E50_00F0 == 0x0050_00D0 || inst & 0x0E50_0FF0 == 0x0010_00D0 || inst & 0x0E50_00F0
        == 0x0050_00F0 || inst & 0x0E50_0FF0 == 0x0010_00F0 {
        ArmInst::HalfTransfer {
            kind: if (inst >> 5u32) & 3 == 1 {
                HalfKind::Half
            } else if (inst >> 5u32) & 3 == 2 {
                HalfKind::SignedByte
            } else {
                HalfKind::SignedHalf
            },
            imm_offset: (inst >> 22u32) & 1 == 1,
            pre: (inst >> 24u32) & 1 == 1,
            up: (inst >> 23u32) & 1 == 1,
            writeback: (inst >> 21u32) & 1 == 1,
            load: (inst >> 20u32) & 1 == 1,
            rn: (inst >> 16u32) & 0xF,
            rd: (inst >> 12u32) & 0xF,
            offset: if (inst >> 22u32) & 1 == 1 {
                ((inst >> 4u32) & 0xF0) | (inst & 0xF)
            } else {
                inst & 0xF
            },
        }
    } else if inst & 0x0E00_0000 == 0x0000_0000 {
        ArmInst::AluReg {
            op: (inst >> 21u32) & 0xF,
            set_flags: (inst >> 20u32) & 1 == 1,
            rn: (inst >> 16u32) & 0xF,
            rd: (inst >> 12u32) & 0xF,
            amount: (inst >> 7u32) & 0x1F,
            shift: (inst >> 5u32) & 3,
            by_reg: (inst >> 4u32) & 1 == 1,
            rm: inst & 0xF,
        }
    } else if inst & 0x0E00_0000 == 0x0200_0000 {
        ArmInst::AluImm {
            op: (inst >> 21u32) & 0xF,
            set_flags: (inst >> 20u32) & 1 == 1,
            rn: (inst >> 16u32) & 0xF,
            rd: (inst >> 12u32) & 0xF,
            rot: (inst >> 8u32) & 0xF,
            imm: inst & 0xFF,
        }
    } else {
        ArmInst::Unknown
    }
}

/// The instruction that bits 0-27 of `inst` encode; the first matching
/// encoding wins.
fn decode_arm_ctrl(inst: u32) -> (d: ArmInst)
    ensures
        d == decoded(inst),
{


    if inst & 0x0E00_0000 == 0x0A00_0000 {
        ArmInst::Branch { link: (inst >> 24u32) & 1 == 1, offset: inst & 0xFF_FFFF }
    } else if inst & 0x0FFF_FFF0 == 0x012F_FF10 {
        ArmInst::BranchExchange { rn: inst & 0xF }
    } else if inst & 0x0F00_0000 == 0x0F00_0000 {
        ArmInst::Swi
    } else if inst & 0x0FFF_0FFF == 0x010F_0000 {
        ArmInst::Mrs { spsr: false, rd: (inst >> 12u32) & 0xF }
    } else if inst & 0x0FFF_0FFF == 0x014F_0000 {
        ArmInst::Mrs { spsr: true, rd: (inst >> 12u32) & 0xF }
    } else if inst & 0x0FB0_FFF0 == 0x0120_F000 {
        ArmInst::MsrReg {
            spsr: (inst >> 22u32) & 1 == 1,
            flags: (inst >> 19u32) & 1 == 1,
            ctrl: (inst >> 16u32) & 1 == 1,
            rm: inst & 0xF,
        }
    } else if inst & 0x0FB0_F000 == 0x0320_F000 {
        ArmInst::MsrImm {
            spsr: (inst >> 22u32) & 1 == 1,
            flags: (inst >> 19u32) & 1 == 1,
            ctrl: (inst >> 16u32) & 1 == 1,
            rot: (inst >> 8u32) & 0xF,
            imm: inst & 0xFF,
        }
    } else {
        decode_arm_mul_mem(inst)
    }
}

/// Encodings after the branches and PSR transfers.
fn decode_arm_mul_mem(inst: u32) -> (d: ArmInst)
    ensures
        d == decoded_mul_mem(inst),
{
    if inst & 0x0FB0_0FF0 == 0x0100_0090 {
        ArmInst::Swap {
            byte: (inst >> 22u32) & 1 == 1,
            rn: (inst >> 16u32) & 0xF,
            rd: (inst >> 12u32) & 0xF,
            rm: inst & 0xF,
        }
    } else if inst & 0x0FC0_00F0 == 0x0000_0090 {
        ArmInst::Mul {
            accumulate: (inst >> 21u32) & 1 == 1,
            set_flags: (inst >> 20u32) & 1 == 1,
            rd: (inst >> 16u32) & 0xF,
            rn: (inst >> 12u32) & 0xF,
            rs: (inst >> 8u32) & 0xF,
            rm: inst & 0xF,
        }
    } else if inst & 0x0F00_00F0 == 0x0000_0090 {
        ArmInst::MulLong {
            op: (inst >> 21u32) & 7,
            set_flags: (inst >> 20u32) & 1 == 1,
            rdhi: (inst >> 16u32) & 0xF,
            rdlo: (inst >> 12u32) & 0xF,
            rs: (inst >> 8u32) & 0xF,
            rm: inst & 0xF,
        }
    } else if inst & 0x0E00_0000 == 0x0800_0000 {
        ArmInst::BlockTransfer {
            pre: (inst >> 24u32) & 1 == 1,
            up: (inst >> 23u32) & 1 == 1,
            user: (inst >> 22u32) & 1 == 1,
            writeback: (inst >> 21u32) & 1 == 1,
            load: (inst >> 20u32) & 1 == 1,
            rn: (inst >> 16u32) & 0xF,
            rlist: inst & 0xFFFF,
        }
    } else if inst & 0x0E00_0000 == 0x0400_0000 || inst & 0x0E00_0010 == 0x0600_0000 {
        ArmInst::Transfer {
            reg_offset: (inst >> 25u32) & 1 == 1,
            pre: (inst >> 24u32) & 1 == 1,
            up: (inst >> 23u32) & 1 == 1,
            byte: (inst >> 22u32) & 1 == 1,
            writeback: (inst >> 21u32) & 1 == 1,
            load: (inst >> 20u32) & 1 == 1,
            rn: (inst >> 16u32) & 0xF,
            rd: (inst >> 12u32) & 0xF,
            offset: inst & 0xFFF,
        }
    } else {
        decode_arm_half_alu(inst)
    }
}

/// Encodings after the multiplies and word transfers.
fn decode_arm_half_alu(inst: u32) -> (d: ArmInst)
    ensures
        d == decoded_half_alu(inst),
{
    if inst & 0x0E40_00F0 == 0x0040_00B0 || inst & 0x0E40_0FF0 == 0x0000_00B0 || inst
        & 0x0E50_00F0 == 0x0050_00D0 || inst & 0x0E50_0FF0 == 0x0010_00D0 || inst & 0x0E50_00F0
        == 0x0050_00F0 || inst & 0x0E50_0FF0 == 0x0010_00F0 {
        ArmInst::HalfTransfer {
            kind: if (inst >> 5u32) & 3 == 1 {
                HalfKind::Half
            } else if (inst >> 5u32) & 3 == 2 {
                HalfKind::SignedByte
            } else {
                HalfKind::SignedHalf
            },
            imm_offset: (inst >> 22u32) & 1 == 1,
            pre: (inst >> 24u32) & 1 == 1,
            up: (inst >> 23u32) & 1 == 1,
            writeback: (inst >> 21u32) & 1 == 1,
            load: (inst >> 20u32) & 1 == 1,
            rn: (inst >> 16u32) & 0xF,
            rd: (inst >> 12u32) & 0xF,
            offset: if (inst >> 22u32) & 1 == 1 {
                ((inst >> 4u32) & 0xF0) | (inst & 0xF)
            } else {
                inst & 0xF
            },
        }
    } else if inst & 0x0E00_0000 == 0x0000_0000 {
        ArmInst::AluReg {
            op: (inst >> 21u32) & 0xF,
            set_flags: (inst >> 20u32) & 1 == 1,
            rn: (inst >> 16u32) & 0xF,
            rd: (inst >> 12u32) & 0xF,
            amount: (inst >> 7u32) & 0x1F,
            shift: (inst >> 5u32) & 3,
            by_reg: (inst >> 4u32) & 1 == 1,
            rm: inst & 0xF,
        }
    } else if inst & 0x0E00_0000 == 0x0200_0000 {
        ArmInst::AluImm {
            op: (inst >> 21u32) & 0xF,
            set_flags: (inst >> 20u32) & 1 == 1,
            rn: (inst >> 16u32) & 0xF,
            rd: (inst >> 12u32) & 0xF,
            rot: (inst >> 8u32) & 0xF,
            imm: inst & 0xFF,
        }
    } else {
        ArmInst::Unknown
    }
}

/// Decode an ARM instruction (the condition aside).
pub fn decode_arm(inst: u32) -> (d: ArmInst)
    ensures
        d == decoded(inst),
{
    decode_arm_ctrl(inst)
}

/// What executing an ARM instruction on the CPU left for the system to do.
#[derive(Copy, Clone, PartialEq, Eq, Structural, Debug)]
pub struct ArmDone {
    /// The PC was written: the pipeline is to be refilled.
    pub pc_written: bool,
    /// CPSR was written: interrupts are to be checked (and, after a
    /// restore from SPSR into THUMB state, the pipeline refilled).
    pub check_irq: bool,
    /// Internal cycles the instruction takes.
    pub wait_cycles: u32,
}

/// Outcome of executing an ARM instruction on the CPU.
#[derive(Copy, Clone, PartialEq, Eq, Structural, Debug)]
pub enum ArmOutcome {
    /// The condition does not hold: nothing happens.
    Skipped,
    /// The instruction was executed.
    Done(ArmDone),
    /// A software interrupt: the system enters the exception.
    Swi,
    /// The instruction accesses memory: the system performs it.
    Memory(ArmInst),
    /// No instruction matches: the system logs it.
    Unknown,
}

/// A 24-bit field taken as a signed value.
pub open spec fn sext24(v: u32) -> int {
    if v >= 0x80_0000 {
        v - 0x100_0000
    } else {
        v as int
    }
}

/// Result of a long multiply `op` of `rm` by `rs`, accumulating the
/// registers `dhi`:`dlo` where the operation does, modulo 2^64.
pub open spec fn mull_result(op: u32, rm: u32, rs: u32, dhi: u32, dlo: u32) -> int {
    let acc = dlo + dhi * 0x1_0000_0000;
    let x = if op == 0b010 {
        rm * rs + dhi + dlo
    } else if op == 0b100 {
        rm * rs
    } else if op == 0b101 {
        rm * rs + acc
    } else if op == 0b110 {
        signed(rm) * signed(rs)
    } else {
        signed(rm) * signed(rs) + (if acc >= 0x8000_0000_0000_0000 { acc - 0x1_0000_0000_0000_0000 } else { acc })
    };
    x % 0x1_0000_0000_0000_0000
}

/// If an ARM instruction can run on the CPU state: a link register can be
/// written, the PC read ahead does not overflow, and an SPSR that gets
/// restored holds a valid mode.
pub open spec fn can_execute(c: Cpu, inst: u32) -> bool {
    match decoded(inst) {
        ArmInst::Branch { link, .. } => link ==> c.pc >= 4,
        ArmInst::AluReg { set_flags, rd, by_reg, .. } => {
            &&& by_reg ==> c.pc + 4 <= u32::MAX
            &&& set_flags && rd == 15 && privileged(c.mode_spec()) ==> is_mode_bits(
                c.spsr[bank_of(c.mode_spec())] & 0x1F,
            )
        },
        ArmInst::AluImm { set_flags, rd, .. } => set_flags && rd == 15 && privileged(c.mode_spec())
            ==> is_mode_bits(c.spsr[bank_of(c.mode_spec())] & 0x1F),
        _ => true,
    }
}

/// State after B/BL: LR holds the return address for BL, and the PC the
/// target.
pub open spec fn branch_post(before: Cpu, after: Cpu, link: bool, offset: u32) -> bool {
    let target = wrap_add(before.pc, (sext24(offset) * 4) as i32);
    &&& link ==> exists|mid: Cpu|
        Cpu::reg_written(before, mid, 14, (before.pc - 4) as u32) && #[trigger] Cpu::reg_written(
            mid,
            after,
            15,
            target,
        )
    &&& !link ==> Cpu::reg_written(before, after, 15, target)
}

/// State after BX: an odd target switches to THUMB state.
pub open spec fn bx_post(before: Cpu, after: Cpu, rn: u32) -> bool {
    let v = before.reg_spec(rn);
    &&& v % 2 == 1 ==> Cpu::reg_written(
        Cpu { cpsr: with_bit(before.cpsr, 5, true), ..before },
        after,
        15,
        (v - 1) as u32,
    )
    &&& v % 2 == 0 ==> Cpu::reg_written(before, after, 15, v)
}

/// State after MUL/MLA.
pub open spec fn mul_post(
    before: Cpu,
    after: Cpu,
    accumulate: bool,
    set_flags: bool,
    rd: u32,
    rn: u32,
    rs: u32,
    rm: u32,
) -> bool {
    let p = ((before.reg_spec(rm) as nat * before.reg_spec(rs) as nat) % 0x1_0000_0000) as u32;
    let c1 = znc(before.cpsr, p, false);
    let res = if accumulate { ((p + before.reg_spec(rn)) % 0x1_0000_0000) as u32 } else { p };
    let c2 = if accumulate { zn(c1, res) } else { c1 };
    let cf = if set_flags { c2 } else { before.cpsr };
    Cpu::reg_written(Cpu { cpsr: cf, ..before }, after, rd, res)
}

/// State after a long multiply: the high word in `rdhi`, then the low
/// word in `rdlo`.
pub open spec fn mull_post(
    before: Cpu,
    after: Cpu,
    op: u32,
    set_flags: bool,
    rdhi: u32,
    rdlo: u32,
    rs: u32,
    rm: u32,
) -> bool {
    let out = mull_result(op, before.reg_spec(rm), before.reg_spec(rs), before.reg_spec(rdhi), before.reg_spec(rdlo));
    let c1 = with_bit(with_bit(before.cpsr, 30, out == 0), 31, out >= 0x8000_0000_0000_0000);
    let cf = if set_flags { c1 } else { before.cpsr };
    exists|mid: Cpu|
        Cpu::reg_written(Cpu { cpsr: cf, ..before }, mid, rdhi, (out / 0x1_0000_0000) as u32)
            && #[trigger] Cpu::reg_written(mid, after, rdlo, (out % 0x1_0000_0000) as u32)
}

/// CPSR after shifting the second operand of data processing with a
/// register operand, and the operand.
pub open spec fn alu_reg_operand(before: Cpu, amount: u32, shift: u32, by_reg: bool, rm: u32) -> (u32, u32) {
    if by_reg {
        shift_out(
            before.cpsr,
            if rm >= 15 { (before.pc + 4) as u32 } else { before.reg_spec(rm) },
            shift,
            before.reg_spec(amount / 2) & 0xFF,
            false,
        )
    } else {
        shift_out(before.cpsr, before.reg_spec(rm), shift, amount, true)
    }
}

/// State and outcome after executing ARM instruction `inst`.
pub open spec fn arm_post(before: Cpu, after: Cpu, inst: u32, r: ArmOutcome) -> bool {
    let cond = cond_holds(
        (inst >> 28u32) as u16,
        before.flag_spec(Flag::Neg),
        before.flag_spec(Flag::Zero),
        before.flag_spec(Flag::Carry),
        before.flag_spec(Flag::Overflow),
    );
    let m = before.mode_spec();
    if !cond {
        r == ArmOutcome::Skipped && after == before
    } else {
        match decoded(inst) {
            ArmInst::Branch { link, offset } => {
                &&& r == ArmOutcome::Done(ArmDone { pc_written: true, check_irq: false, wait_cycles: 0 })
                &&& branch_post(before, after, link, offset)
            },
            ArmInst::BranchExchange { rn } => {
                &&& r == ArmOutcome::Done(ArmDone { pc_written: true, check_irq: false, wait_cycles: 0 })
                &&& bx_post(before, after, rn)
            },
            ArmInst::Swi => r == ArmOutcome::Swi && after == before,
            ArmInst::Mrs { spsr, rd } => {
                &&& r == ArmOutcome::Done(ArmDone { pc_written: rd >= 15, check_irq: false, wait_cycles: 0 })
                &&& Cpu::reg_written(before, after, rd, if spsr { before.spsr[bank_of(m)] } else { before.cpsr })
            },
            ArmInst::MsrReg { spsr, flags, ctrl, rm } => {
                &&& r == ArmOutcome::Done(ArmDone { pc_written: false, check_irq: !spsr, wait_cycles: 0 })
                &&& msr_post(before, after, before.reg_spec(rm), flags, ctrl, spsr)
            },
            ArmInst::MsrImm { spsr, flags, ctrl, rot, imm } => {
                &&& r == ArmOutcome::Done(ArmDone { pc_written: false, check_irq: !spsr, wait_cycles: 0 })
                &&& msr_post(before, after, rotr(imm, (rot * 2) as u32), flags, ctrl, spsr)
            },
            ArmInst::Mul { accumulate, set_flags, rd, rn, rs, rm } => {
                &&& r == ArmOutcome::Done(
                    ArmDone { pc_written: rd >= 15, check_irq: false, wait_cycles: if accumulate { 2 } else { 1 } },
                )
                &&& mul_post(before, after, accumulate, set_flags, rd, rn, rs, rm)
            },
            ArmInst::MulLong { op, set_flags, rdhi, rdlo, rs, rm } => {
                &&& r == ArmOutcome::Done(
                    ArmDone { pc_written: rdhi >= 15 || rdlo >= 15, check_irq: false, wait_cycles: 1 },
                )
                &&& mull_post(before, after, op, set_flags, rdhi, rdlo, rs, rm)
            },
            ArmInst::AluReg { op, set_flags, rn, rd, amount, shift, by_reg, rm } => {
                let (b, c1) = alu_reg_operand(before, amount, shift, by_reg, rm);
                &&& r matches ArmOutcome::Done(d)
                &&& d.wait_cycles == 1
                &&& alu_post(
                    Cpu { cpsr: c1, ..before },
                    after,
                    AluEffect { spsr_restored: d.check_irq, pc_written: d.pc_written },
                    by_reg,
                    op,
                    rn,
                    b,
                    rd,
                    set_flags,
                    before.cpsr,
                )
            },
            ArmInst::AluImm { op, set_flags, rn, rd, rot, imm } => {
                let (b, c1) = ror_out(before.cpsr, imm, (rot * 2) as u32, false);
                &&& r matches ArmOutcome::Done(d)
                &&& d.wait_cycles == 0
                &&& alu_post(
                    Cpu { cpsr: c1, ..before },
                    after,
                    AluEffect { spsr_restored: d.check_irq, pc_written: d.pc_written },
                    false,
                    op,
                    rn,
                    b,
                    rd,
                    set_flags,
                    before.cpsr,
                )
            },
            ArmInst::Unknown => r == ArmOutcome::Unknown && after == before,
            other => r == ArmOutcome::Memory(other) && after == before,
        }
    }
}

/// A word taken as `i32` is its two's complement value.
proof fn lemma_as_i32(a: u32)
    by (bit_vector)
    ensures
        a < 0x8000_0000 ==> (a as i32) as int == a as int,
        a >= 0x8000_0000 ==> (a as i32) as int == a - 0x1_0000_0000,
{
}

/// Setting Zero and Negative (and Carry) leaves the THUMB bit and the mode
/// bits alone, for any result.
proof fn lemma_flag_updates(cpsr: u32)
    ensures
        forall|x: u32| #[trigger] zn(cpsr, x) & 0x1F == cpsr & 0x1F && bit_set(zn(cpsr, x), 5) == bit_set(cpsr, 5),
        forall|x: u32, c: bool| #[trigger] znc(cpsr, x, c) & 0x1F == cpsr & 0x1F && bit_set(znc(cpsr, x, c), 5) == bit_set(cpsr, 5),
{
    assert forall|x: u32| #[trigger] zn(cpsr, x) & 0x1F == cpsr & 0x1F && bit_set(zn(cpsr, x), 5) == bit_set(cpsr, 5) by {
        lemma_flags_keep_state(cpsr, x == 0, bit_set(x, 31), false);
    }
    assert forall|x: u32, c: bool| #[trigger] znc(cpsr, x, c) & 0x1F == cpsr & 0x1F && bit_set(znc(cpsr, x, c), 5) == bit_set(cpsr, 5) by {
        lemma_flags_keep_state(cpsr, x == 0, bit_set(x, 31), c);
    }
}

/// Flag writes leave the THUMB bit and the mode bits alone.
proof fn lemma_flags_keep_state(cpsr: u32, z: bool, n: bool, c: bool)
    ensures
        bit_set(with_bit(with_bit(cpsr, 30, z), 31, n), 5) == bit_set(cpsr, 5),
        bit_set(with_bit(with_bit(with_bit(cpsr, 30, z), 31, n), 29, c), 5) == bit_set(cpsr, 5),
        with_bit(with_bit(cpsr, 30, z), 31, n) & 0x1F == cpsr & 0x1F,
        with_bit(with_bit(with_bit(cpsr, 30, z), 31, n), 29, c) & 0x1F == cpsr & 0x1F,
{
    lemma_with_bit(cpsr, 30, z);
    lemma_with_bit(with_bit(cpsr, 30, z), 31, n);
    lemma_with_bit(with_bit(with_bit(cpsr, 30, z), 31, n), 29, c);
}

impl Cpu {
    /// Execute an ARM instruction as far as the CPU goes: branches, PSR
    /// transfers, multiplies and data processing. Instructions that access
    /// memory, and software interrupts, are handed back to the system.
    pub fn execute_inst_arm(&mut self, inst: u32) -> (r: ArmOutcome)
        requires
            old(self).wf(),
            cond_holds(
                (inst >> 28u32) as u16,
                old(self).flag_spec(Flag::Neg),
                old(self).flag_spec(Flag::Zero),
                old(self).flag_spec(Flag::Carry),
                old(self).flag_spec(Flag::Overflow),
            ) ==> can_execute(*old(self), inst),
        ensures
            arm_post(*old(self), *final(self), inst, r),
    {
        proof {
            assert((inst >> 28u32) < 16 && inst & 0xFF_FFFF < 0x100_0000 && (inst >> 5u32) & 3 < 4)
                by (bit_vector);
            crate::bits::lemma_mask_bounds();
        }
        if !self.eval_condition((inst >> 28) as u16) {
            return ArmOutcome::Skipped;
        }
        match decode_arm(inst) {
            ArmInst::Branch { link, offset } => {
                self.exec_branch(link, offset);
                ArmOutcome::Done(ArmDone { pc_written: true, check_irq: false, wait_cycles: 0 })
            },
            ArmInst::BranchExchange { rn } => {
                self.exec_bx(rn);
                ArmOutcome::Done(ArmDone { pc_written: true, check_irq: false, wait_cycles: 0 })
            },
            ArmInst::Swi => ArmOutcome::Swi,
            ArmInst::Mrs { spsr, rd } => {
                let v = if spsr {
                    self.spsr()
                } else {
                    self.cpsr
                };
                let w = self.set_reg(rd, v);
                ArmOutcome::Done(ArmDone { pc_written: w, check_irq: false, wait_cycles: 0 })
            },
            ArmInst::MsrReg { spsr, flags, ctrl, rm } => {
                let src = self.reg(rm);
                let written = self.msr(src, flags, ctrl, spsr);
                ArmOutcome::Done(ArmDone { pc_written: false, check_irq: written, wait_cycles: 0 })
            },
            ArmInst::MsrImm { spsr, flags, ctrl, rot, imm } => {
                let src = Self::ror_s0(imm, rot * 2);
                let written = self.msr(src, flags, ctrl, spsr);
                ArmOutcome::Done(ArmDone { pc_written: false, check_irq: written, wait_cycles: 0 })
            },
            ArmInst::Mul { accumulate, set_flags, rd, rn, rs, rm } => {
                let w = self.exec_mul(accumulate, set_flags, rd, rn, rs, rm);
                ArmOutcome::Done(
                    ArmDone { pc_written: w, check_irq: false, wait_cycles: if accumulate { 2 } else { 1 } },
                )
            },
            ArmInst::MulLong { op, set_flags, rdhi, rdlo, rs, rm } => {
                let w = self.exec_mull(op, set_flags, rdhi, rdlo, rs, rm);
                ArmOutcome::Done(ArmDone { pc_written: w, check_irq: false, wait_cycles: 1 })
            },
            ArmInst::AluReg { op, set_flags, rn, rd, amount, shift, by_reg, rm } => {
                let e = self.exec_alu_reg(op, set_flags, rn, rd, amount, shift, by_reg, rm);
                ArmOutcome::Done(ArmDone { pc_written: e.pc_written, check_irq: e.spsr_restored, wait_cycles: 1 })
            },
            ArmInst::AluImm { op, set_flags, rn, rd, rot, imm } => {
                let e = self.exec_alu_imm(op, set_flags, rn, rd, rot, imm);
                ArmOutcome::Done(ArmDone { pc_written: e.pc_written, check_irq: e.spsr_restored, wait_cycles: 0 })
            },
            ArmInst::Unknown => ArmOutcome::Unknown,
            other => ArmOutcome::Memory(other),
        }
    }

    /// B/BL.
    fn exec_branch(&mut self, link: bool, offset: u32)
        requires
            old(self).wf(),
            offset < 0x100_0000,
            link ==> old(self).pc >= 4,
        ensures
            final(self).wf(),
            branch_post(*old(self), *final(self), link, offset),
    {
        let ghost before = *self;
        // Step 4
        let nn: i32 = if offset >= 0x80_0000 {
            (offset as i32 - 0x100_0000) * 4
        } else {
            offset as i32 * 4
        };
        if link {
            let lr = self.pc - 4;
            self.set_reg(14, lr);
        }
        let ghost mid = *self;
        let target = self.pc.wrapping_add_signed(nn);
        self.set_reg(15, target);
        proof {
            assert(nn == sext24(offset) * 4);
            assert(mid.pc == before.pc);
            assert(target == wrap_add(before.pc, (sext24(offset) * 4) as i32));
            if link {
                assert(Cpu::reg_written(mid, *self, 15, target));
            } else {
                assert(mid == before);
            }
        }
    }

    /// BX.
    fn exec_bx(&mut self, rn: u32)
        requires
            old(self).wf(),
        ensures
            final(self).wf(),
            bx_post(*old(self), *final(self), rn),
    {
        let v = self.reg(rn);
        if v % 2 == 1 {
            self.set_flag(Flag::Thumb, true);
            proof {
                lemma_with_bit(old(self).cpsr, 5, true);
            }
            self.set_reg(15, v - 1);
        } else {
            self.set_reg(15, v);
        }
    }

    /// MUL/MLA.
    fn exec_mul(&mut self, accumulate: bool, set_flags: bool, rd: u32, rn: u32, rs: u32, rm: u32) -> (pc_written: bool)
        requires
            old(self).wf(),
        ensures
            pc_written == (rd >= 15),
            mul_post(*old(self), *final(self), accumulate, set_flags, rd, rn, rs, rm),
    {
        let ghost before = *self;
        let cpsr = self.cpsr;
        let a = self.reg(rm);
        let b = self.reg(rs);
        let mut res = self.mul(a, b);
        proof {
            lemma_flag_updates(cpsr);
        }
        if accumulate {
            // MLA
            let acc = self.reg(rn);
            res = res.wrapping_add(acc);
            self.set_zn(res);
        }
        if !set_flags {
            // Restore CPSR if we weren't supposed to set flags
            self.cpsr = cpsr;
        }
        proof {
            let p = ((a as nat * b as nat) % 0x1_0000_0000) as u32;
            lemma_flags_keep_state(cpsr, p == 0, bit_set(p, 31), false);
            lemma_flags_keep_state(
                with_bit(with_bit(with_bit(cpsr, 30, p == 0), 31, bit_set(p, 31)), 29, false),
                res == 0,
                bit_set(res, 31),
                false,
            );
            assert(*self == (Cpu { cpsr: self.cpsr, ..before }));
        }
        self.set_reg(rd, res)
    }

    /// UMAAL, UMULL, UMLAL, SMULL, SMLAL.
    fn exec_mull(&mut self, op: u32, set_flags: bool, rdhi: u32, rdlo: u32, rs: u32, rm: u32) -> (pc_written: bool)
        requires
            old(self).wf(),
        ensures
            pc_written == (rdhi >= 15 || rdlo >= 15),
            mull_post(*old(self), *final(self), op, set_flags, rdhi, rdlo, rs, rm),
    {
        let ghost before = *self;
        let a = self.reg(rm);
        let b = self.reg(rs);
        let dhi = self.reg(rdhi);
        let dlo = self.reg(rdlo);
        let out = Self::mull(op, a, b, dhi, dlo);
        let cpsr = self.cpsr;
        if set_flags {
            self.set_flag(Flag::Zero, out == 0);
            self.set_flag(Flag::Neg, out >= 0x8000_0000_0000_0000);
        }
        proof {
            lemma_flags_keep_state(cpsr, out == 0, out >= 0x8000_0000_0000_0000, false);
            assert(*self == (Cpu { cpsr: self.cpsr, ..before }));
        }
        let w1 = self.set_reg(rdhi, (out / 0x1_0000_0000) as u32);
        let ghost mid = *self;
        let w2 = self.set_reg(rdlo, (out % 0x1_0000_0000) as u32);
        proof {
            assert(Cpu::reg_written(mid, *self, rdlo, (out % 0x1_0000_0000) as u32));
        }
        w1 || w2
    }

    /// Data processing with a register operand, shifted by an immediate or
    /// by a register.
    fn exec_alu_reg(
        &mut self,
        op: u32,
        set_flags: bool,
        rn: u32,
        rd: u32,
        amount: u32,
        shift: u32,
        by_reg: bool,
        rm: u32,
    ) -> (e: AluEffect)
        requires
            old(self).wf(),
            amount < 32,
            shift < 4,
            by_reg ==> old(self).pc + 4 <= u32::MAX,
            set_flags && rd == 15 && privileged(old(self).mode_spec()) ==> is_mode_bits(
                old(self).spsr[bank_of(old(self).mode_spec())] & 0x1F,
            ),
        ensures
            ({
                let (b, c1) = alu_reg_operand(*old(self), amount, shift, by_reg, rm);
                alu_post(Cpu { cpsr: c1, ..*old(self) }, *final(self), e, by_reg, op, rn, b, rd, set_flags, old(self).cpsr)
            }),
    {
        let ghost before = *self;
        let cpsr = self.cpsr;
        proof {
            lemma_flag_updates(cpsr);
            crate::bits::lemma_mask_bounds();
        }
        if !by_reg {
            // Shift by imm
            let v = self.reg(rm);
            let second_op = self.shifted_op::<true>(v, shift, amount);
            proof {
                assert(*self == (Cpu { cpsr: self.cpsr, ..before }));
            }
            self.alu::<false>(op, rn, second_op, rd, set_flags, cpsr)
        } else {
            // Shift by reg
            let v = self.reg_pc4(rm);
            let by = self.reg(amount / 2) & 0xFF;
            let second_op = self.shifted_op::<false>(v, shift, by);
            proof {
                assert(*self == (Cpu { cpsr: self.cpsr, ..before }));
            }
            self.alu::<true>(op, rn, second_op, rd, set_flags, cpsr)
        }
    }

    /// Data processing with a rotated immediate.
    fn exec_alu_imm(&mut self, op: u32, set_flags: bool, rn: u32, rd: u32, rot: u32, imm: u32) -> (e: AluEffect)
        requires
            old(self).wf(),
            rot < 16,
            set_flags && rd == 15 && privileged(old(self).mode_spec()) ==> is_mode_bits(
                old(self).spsr[bank_of(old(self).mode_spec())] & 0x1F,
            ),
        ensures
            ({
                let (b, c1) = ror_out(old(self).cpsr, imm, (rot * 2) as u32, false);
                alu_post(Cpu { cpsr: c1, ..*old(self) }, *final(self), e, false, op, rn, b, rd, set_flags, old(self).cpsr)
            }),
    {
        let ghost before = *self;
        let cpsr = self.cpsr;
        let second_op = self.ror::<false>(imm, rot * 2);
        proof {
            lemma_flag_updates(cpsr);
            assert(*self == (Cpu { cpsr: self.cpsr, ..before }));
        }
        self.alu::<false>(op, rn, second_op, rd, set_flags, cpsr)
    }

    /// Long multiply: the 64-bit result of operation `op`.
    fn mull(op: u32, a: u32, b: u32, dhi: u32, dlo: u32) -> (out: u64)
        ensures
            out == mull_result(op, a, b, dhi, dlo),
    {
        let acc: u64 = dlo as u64 + dhi as u64 * 0x1_0000_0000;
        proof {
            assert(a * b <= 0xFFFF_FFFE_0000_0001) by (nonlinear_arith)
                requires a <= 0xFFFF_FFFF, b <= 0xFFFF_FFFF;
        }
        let p: u64 = a as u64 * b as u64;
        if op == 0b010 {
            // UMAAL
            proof {
                vstd::arithmetic::div_mod::lemma_small_mod(
                    (a * b + dhi + dlo) as nat,
                    0x1_0000_0000_0000_0000,
                );
            }
            p + dhi as u64 + dlo as u64
        } else if op == 0b100 {
            // UMULL
            proof {
                vstd::arithmetic::div_mod::lemma_small_mod((a * b) as nat, 0x1_0000_0000_0000_0000);
            }
            p
        } else if op == 0b101 {
            // UMLAL
            ((p as u128 + acc as u128) % 0x1_0000_0000_0000_0000) as u64
        } else {
            let sa: i64 = a as i32 as i64;
            let sb: i64 = b as i32 as i64;
            proof {
                lemma_as_i32(a);
                lemma_as_i32(b);
                assert(-0x8000_0000 <= sa <= 0x7FFF_FFFF);
                assert(-0x8000_0000 <= sb <= 0x7FFF_FFFF);
                assert(-0x4000_0000_0000_0000 <= sa * sb <= 0x4000_0000_0000_0000) by (nonlinear_arith)
                    requires -0x8000_0000 <= sa <= 0x7FFF_FFFF, -0x8000_0000 <= sb <= 0x7FFF_FFFF;
            }
            let prod: i128 = (sa * sb) as i128;
            let x: i128 = if op == 0b110 {
                // SMULL
                prod
            } else {
                // SMLAL
                let sacc: i128 = if acc >= 0x8000_0000_0000_0000 {
                    acc as i128 - 0x1_0000_0000_0000_0000
                } else {
                    acc as i128
                };
                prod + sacc
            };
            let shifted = (x + 0x2_0000_0000_0000_0000) as u128;
            proof {
                vstd::arithmetic::div_mod::lemma_mod_multiples_vanish(2, x as int, 0x1_0000_0000_0000_0000);
            }
            (shifted % 0x1_0000_0000_0000_0000) as u64
        }
    }
}

/// Returning from an exception with `MOVS PC, LR` (MOV with S into the PC,
/// in the exception's mode) gives back the CPSR the exception was entered
/// from, as `Cpu::enter_exception` saved it.
pub proof fn lemma_exception_return_restores_cpsr(
    before: Cpu,
    entered: Cpu,
    kind: Exception,
    after: Cpu,
    e: AluEffect,
    b: u32,
    cpsr: u32,
)
    requires
        entered.mode_spec() == exception_mode(kind),
        entered.spsr@ == before.spsr@.update(bank_of(exception_mode(kind)), before.cpsr),
        alu_post(entered, after, e, false, 0xD, 0, b, 15, true, cpsr),
    ensures
        e.spsr_restored,
        after.cpsr == before.cpsr,
{
}

/// A signed 32-bit value as its two's complement bits.
pub open spec fn bits32(v: int) -> nat {
    (v % 0x1_0000_0000) as nat
}

/// Mnemonic of a shift type.
pub open spec fn shift_type_name(t: u32) -> Seq<char> {
    if t == 0 {
        "lsl"@
    } else if t == 1 {
        "lsr"@
    } else if t == 2 {
        "asr"@
    } else {
        "ror"@
    }
}

/// The shift of a data processing instruction's register operand: by
/// register when `r` is set (register `a / 2`), else by the amount `a`,
/// and nothing for a plain LSL by 0.
pub open spec fn shift_text(r: u32, t: u32, a: u32) -> Seq<char> {
    if r == 0 && t == 0 && a == 0 {
        Seq::empty()
    } else if r == 0 {
        "("@ + shift_type_name(t) + " #"@ + dec(a as nat) + ")"@
    } else {
        "("@ + shift_type_name(t) + " r"@ + dec((a / 2) as nat) + ")"@
    }
}

/// Mnemonic of a halfword or signed transfer: `o` selects the load.
pub open spec fn half_transfer_name(load: bool, o: u32) -> Seq<char> {
    if !load {
        "strh"@
    } else if o == 1 {
        "ldrh"@
    } else if o == 2 {
        "ldrsb"@
    } else if o == 3 {
        "ldrsh"@
    } else {
        "?"@
    }
}

/// Mnemonic of a block transfer from its P, U and L bits.
pub open spec fn block_transfer_name(p: bool, u: bool, l: bool) -> Seq<char> {
    let dir = if p && u {
        "ib"@
    } else if u {
        "ia"@
    } else if p {
        "db"@
    } else {
        "da"@
    };
    (if l { "ldm"@ } else { "stm"@ }) + dir
}

/// Disassembly of ARM instruction `inst`.
pub open spec fn arm_mnemonic(inst: u32) -> Seq<char> {
    let co = cond_mnemonic((inst >> 28u32) as u16);
    let n24 = inst & 0xFF_FFFF;
    let x16 = dec(((inst >> 16u32) & 0xF) as nat);
    let x12 = dec(((inst >> 12u32) & 0xF) as nat);
    let x8 = dec(((inst >> 8u32) & 0xF) as nat);
    let x0 = dec((inst & 0xF) as nat);
    let c = dec(((inst >> 20u32) & 1) as nat);
    let p = (inst >> 24u32) & 1 == 1;
    let u = if (inst >> 23u32) & 1 == 1 { "+"@ } else { "-"@ };
    let load = (inst >> 20u32) & 1 == 1;
    let op = (inst >> 21u32) & 0xF;
    if inst & 0x0F00_0000 == 0x0A00_0000 {
        "b"@ + co + " +0x"@ + hex(bits32(sext24(n24) * 4 + 8))
    } else if inst & 0x0F00_0000 == 0x0B00_0000 {
        "bl"@ + co + " +0x"@ + hex(bits32(sext24(n24) * 4 + 8))
    } else if inst & 0x0FFF_FFF0 == 0x012F_FF10 {
        "bx"@ + co + " r"@ + x0
    } else if inst & 0x0F00_0000 == 0x0F00_0000 {
        "swi"@ + co + " 0x"@ + digits(n24 as nat, 16, 7)
    } else if inst & 0x0FF0_0FF0 == 0x0100_0090 {
        "swp"@ + co + " r"@ + x12 + ", r"@ + x0 + ", [r"@ + x16 + "]"@
    } else if inst & 0x0FF0_0FF0 == 0x0140_0090 {
        "swpb"@ + co + " r"@ + x12 + ", r"@ + x0 + ", [r"@ + x16 + "]"@
    } else if inst & 0x0FFF_0FFF == 0x010F_0000 {
        "mrs"@ + co + " r"@ + x12 + ", cpsr"@
    } else if inst & 0x0FFF_0FFF == 0x014F_0000 {
        "mrs"@ + co + " r"@ + x12 + ", spsr"@
    } else if inst & 0x0FB0_FFF0 == 0x0120_F000 {
        "msr"@ + co + " reg (todo)"@
    } else if inst & 0x0FB0_F000 == 0x0320_F000 {
        "msr"@ + co + " imm (todo)"@
    } else if inst & 0x0FE0_00F0 == 0x0000_0090 {
        "mul"@ + co + " r"@ + x16 + ", r"@ + x0 + ", r"@ + x8 + ", ("@ + c + ")"@
    } else if inst & 0x0FE0_00F0 == 0x0020_0090 {
        "mla"@ + co + " r"@ + x16 + ", r"@ + x0 + ", r"@ + x8 + ", r"@ + x12 + " ("@ + c + ")"@
    } else if inst & 0x0FE0_00F0 == 0x0040_0090 {
        "umaal"@ + co + " r"@ + x16 + "r"@ + x12 + ", (r"@ + x0 + " * r"@ + x8 + " + r"@ + x16 + " + r"@ + x12
            + ") ("@ + c + ")"@
    } else if inst & 0x0FE0_00F0 == 0x0080_0090 {
        "umull"@ + co + " r"@ + x16 + "r"@ + x12 + ", (r"@ + x0 + " * r"@ + x8 + ") ("@ + c + ")"@
    } else if inst & 0x0FE0_00F0 == 0x00A0_0090 {
        "umlal"@ + co + " r"@ + x16 + "r"@ + x12 + ", (r"@ + x0 + " * r"@ + x8 + " + r"@ + x16 + "r"@ + x12
            + ") ("@ + c + ")"@
    } else if inst & 0x0FE0_00F0 == 0x00C0_0090 {
        "smull"@ + co + " r"@ + x16 + "r"@ + x12 + ", (r"@ + x0 + " * r"@ + x8 + ") ("@ + c + ")"@
    } else if inst & 0x0FE0_00F0 == 0x00E0_0090 {
        "smlal"@ + co + " r"@ + x16 + "r"@ + x12 + ", (r"@ + x0 + " * r"@ + x8 + " + r"@ + x16 + "r"@ + x12
            + ") ("@ + c + ")"@
    } else if inst & 0x0E00_0000 == 0x0800_0000 {
        block_transfer_name(p, (inst >> 23u32) & 1 == 1, load) + " r"@ + x16 + "!, "@ + digits(
            (inst & 0xFFFF) as nat,
            2,
            16,
        )
    } else if inst & 0x0E00_0000 == 0x0400_0000 {
        let name = (if load { "ldr"@ } else { "str"@ }) + (if (inst >> 22u32) & 1 == 1 { "b"@ } else { ""@ })
            + co;
        let off = hex((inst & 0xFFF) as nat);
        if p {
            name + " r"@ + x12 + ", [r"@ + x16 + u + "0x"@ + off + "]"@
        } else {
            name + " r"@ + x12 + ", [r"@ + x16 + "], "@ + u + "0x"@ + off
        }
    } else if inst & 0x0E00_0010 == 0x0600_0000 {
        let name = (if load { "ldr"@ } else { "str"@ }) + (if (inst >> 22u32) & 1 == 1 { "b"@ } else { ""@ })
            + co;
        let sh = shift_type_name((inst >> 5u32) & 3);
        let by = dec(((inst >> 7u32) & 0x1F) as nat);
        if p {
            name + " r"@ + x12 + ", [r"@ + x16 + u + "(r"@ + x0 + " "@ + sh + " "@ + by + ")"@ + "]"@
        } else {
            name + " r"@ + x12 + ", [r"@ + x16 + "], "@ + u + "(r"@ + x0 + " "@ + sh + " "@ + by + ")"@
        }
    } else if inst & 0x0E40_0090 == 0x0040_0090 {
        let name = half_transfer_name(load, (inst >> 5u32) & 3) + co;
        let off = hex((((inst >> 4u32) & 0xF0) | (inst & 0xF)) as nat);
        if p {
            name + " r"@ + x12 + ", [r"@ + x16 + " "@ + u + "0x"@ + off + "]"@
        } else {
            name + " r"@ + x12 + ", [r"@ + x16 + "], "@ + u + "0x"@ + off
        }
    } else if inst & 0x0E40_0F90 == 0x0000_0090 {
        let name = half_transfer_name(load, (inst >> 5u32) & 3) + co;
        if p {
            name + " r"@ + x12 + ", [r"@ + x16 + " "@ + u + "r"@ + x0 + "]"@
        } else {
            name + " r"@ + x12 + ", [r"@ + x16 + "], "@ + u + "r"@ + x0
        }
    } else if inst & 0x0E00_0000 == 0 {
        let name = alu_mnemonic_spec(op) + co;
        let sh = shift_text((inst >> 4u32) & 1, (inst >> 5u32) & 3, (inst >> 7u32) & 0x1F);
        if 0x8 <= op <= 0xB {
            name + " r"@ + x16 + ", r"@ + x0 + " "@ + sh + " ("@ + c + ")"@
        } else if op == 0xD || op == 0xF {
            name + " r"@ + x12 + ", r"@ + x0 + " "@ + sh + " ("@ + c + ")"@
        } else {
            name + " r"@ + x12 + ", r"@ + x16 + ", r"@ + x0 + " "@ + sh + " ("@ + c + ")"@
        }
    } else if inst & 0x0E00_0000 == 0x0200_0000 {
        let name = alu_mnemonic_spec(op) + co;
        let rot = (inst >> 8u32) & 0xF;
        let imm = hex((if rot == 0 { inst & 0xFF } else { rotr(inst & 0xFF, rot) }) as nat);
        if 0x8 <= op <= 0xB {
            name + " r"@ + x16 + ", #"@ + imm + " ("@ + c + ")"@
        } else if op == 0xD || op == 0xF {
            name + " r"@ + x12 + ", #"@ + imm + " ("@ + c + ")"@
        } else {
            name + " r"@ + x12 + ", r"@ + x16 + ", #"@ + imm + " ("@ + c + ")"@
        }
    } else {
        digits(inst as nat, 16, 8) + "??"@
    }
}

/// Append `lit`, then `v` in decimal.
fn put_dec(s: &mut String, lit: &str, v: u32)
    ensures
        final(s)@ == old(s)@ + lit@ + dec(v as nat),
{
    s.append(lit);
    push_digits(s, v, 10, 0);
}

/// Append `lit`, then `v` in hexadecimal.
fn put_hex(s: &mut String, lit: &str, v: u32)
    ensures
        final(s)@ == old(s)@ + lit@ + hex(v as nat),
{
    s.append(lit);
    push_digits(s, v, 16, 0);
}

/// `v` as the bits of a signed 32-bit value.
fn bits32_exec(v: i64) -> (r: u32)
    requires
        -0x1_0000_0000 < v < 0x1_0000_0000,
    ensures
        r == bits32(v as int),
{
    if v < 0 {
        (v + 0x1_0000_0000) as u32
    } else {
        v as u32
    }
}

impl Cpu {
    /// The shift of a data processing instruction's register operand.
    fn shift_mnemonic(r: u32, t: u32, a: u32) -> (s: String)
        ensures
            s@ == shift_text(r, t, a),
    {
        if r == 0 && t == 0 && a == 0 {
            String::new()
        } else {
            let mut s = String::from_str("(");
            s.append(Self::shift_type_mnemonic(t));
            if r == 0 {
                put_dec(&mut s, " #", a);
            } else {
                put_dec(&mut s, " r", a >> 1);
                proof {
                    assert(a >> 1 == a / 2) by (bit_vector);
                }
            }
            s.append(")");
            s
        }
    }

    /// Disassemble ARM instruction `inst`.
    pub fn get_mnemonic_arm(inst: u32) -> (r: String)
        ensures
            r@ == arm_mnemonic(inst),
    {
        proof {
            crate::bits::lemma_mask_bounds();
        }
        let co = Self::condition_mnemonic((inst >> 28) as u16);
        let n24 = inst & 0xFF_FFFF;
        let x16 = (inst >> 16) & 0xF;
        let x12 = (inst >> 12) & 0xF;
        let x8 = (inst >> 8) & 0xF;
        let x0 = inst & 0xF;
        let c = (inst >> 20) & 1;
        let p = (inst >> 24) & 1 == 1;
        let u = if (inst >> 23) & 1 == 1 {
            "+"
        } else {
            "-"
        };
        let load = (inst >> 20) & 1 == 1;
        let op = (inst >> 21) & 0xF;
        if inst & 0x0F00_0000 == 0x0A00_0000 || inst & 0x0F00_0000 == 0x0B00_0000 {
            let mut s = if inst & 0x0F00_0000 == 0x0A00_0000 {
                String::from_str("b")
            } else {
                String::from_str("bl")
            };
            s.append(co);
            let nn: i64 = if n24 >= 0x80_0000 {
                n24 as i64 - 0x100_0000
            } else {
                n24 as i64
            };
            put_hex(&mut s, " +0x", bits32_exec(nn * 4 + 8));
            s
        } else if inst & 0x0FFF_FFF0 == 0x012F_FF10 {
            let mut s = String::from_str("bx");
            s.append(co);
            put_dec(&mut s, " r", x0);
            s
        } else if inst & 0x0F00_0000 == 0x0F00_0000 {
            let mut s = String::from_str("swi");
            s.append(co);
            s.append(" 0x");
            push_digits(&mut s, n24, 16, 7);
            s
        } else if inst & 0x0FF0_0FF0 == 0x0100_0090 || inst & 0x0FF0_0FF0 == 0x0140_0090 {
            let mut s = if inst & 0x0FF0_0FF0 == 0x0100_0090 {
                String::from_str("swp")
            } else {
                String::from_str("swpb")
            };
            s.append(co);
            put_dec(&mut s, " r", x12);
            put_dec(&mut s, ", r", x0);
            put_dec(&mut s, ", [r", x16);
            s.append("]");
            s
        } else if inst & 0x0FFF_0FFF == 0x010F_0000 || inst & 0x0FFF_0FFF == 0x014F_0000 {
            let mut s = String::from_str("mrs");
            s.append(co);
            put_dec(&mut s, " r", x12);
            if inst & 0x0FFF_0FFF == 0x010F_0000 {
                s.append(", cpsr");
            } else {
                s.append(", spsr");
            }
            s
        } else if inst & 0x0FB0_FFF0 == 0x0120_F000 || inst & 0x0FB0_F000 == 0x0320_F000 {
            let mut s = String::from_str("msr");
            s.append(co);
            if inst & 0x0FB0_FFF0 == 0x0120_F000 {
                s.append(" reg (todo)");
            } else {
                s.append(" imm (todo)");
            }
            s
        } else if inst & 0x0FE0_00F0 == 0x0000_0090 || inst & 0x0FE0_00F0 == 0x0020_0090 {
            let mla = inst & 0x0FE0_00F0 == 0x0020_0090;
            let mut s = if mla {
                String::from_str("mla")
            } else {
                String::from_str("mul")
            };
            s.append(co);
            put_dec(&mut s, " r", x16);
            put_dec(&mut s, ", r", x0);
            put_dec(&mut s, ", r", x8);
            if mla {
                put_dec(&mut s, ", r", x12);
                put_dec(&mut s, " (", c);
            } else {
                put_dec(&mut s, ", (", c);
            }
            s.append(")");
            s
        } else if inst & 0x0FE0_00F0 == 0x0040_0090 || inst & 0x0FE0_00F0 == 0x0080_0090 || inst & 0x0FE0_00F0
            == 0x00A0_0090 || inst & 0x0FE0_00F0 == 0x00C0_0090 || inst & 0x0FE0_00F0 == 0x00E0_0090 {
            let kind = inst & 0x0FE0_00F0;
            let mut s = if kind == 0x0040_0090 {
                String::from_str("umaal")
            } else if kind == 0x0080_0090 {
                String::from_str("umull")
            } else if kind == 0x00A0_0090 {
                String::from_str("umlal")
            } else if kind == 0x00C0_0090 {
                String::from_str("smull")
            } else {
                String::from_str("smlal")
            };
            s.append(co);
            put_dec(&mut s, " r", x16);
            put_dec(&mut s, "r", x12);
            put_dec(&mut s, ", (r", x0);
            put_dec(&mut s, " * r", x8);
            if kind == 0x0040_0090 {
                put_dec(&mut s, " + r", x16);
                put_dec(&mut s, " + r", x12);
            } else if kind == 0x00A0_0090 || kind == 0x00E0_0090 {
                put_dec(&mut s, " + r", x16);
                put_dec(&mut s, "r", x12);
            }
            put_dec(&mut s, ") (", c);
            s.append(")");
            s
        } else if inst & 0x0E00_0000 == 0x0800_0000 {
            let up = (inst >> 23) & 1 == 1;
            let mut s = if load {
                String::from_str("ldm")
            } else {
                String::from_str("stm")
            };
            if p && up {
                s.append("ib");
            } else if up {
                s.append("ia");
            } else if p {
                s.append("db");
            } else {
                s.append("da");
            }
            put_dec(&mut s, " r", x16);
            s.append("!, ");
            push_digits(&mut s, inst & 0xFFFF, 2, 16);
            s
        } else if inst & 0x0E00_0000 == 0x0400_0000 || inst & 0x0E00_0010 == 0x0600_0000 {
            let mut s = if load {
                String::from_str("ldr")
            } else {
                String::from_str("str")
            };
            if (inst >> 22) & 1 == 1 {
                s.append("b");
            } else {
                s.append("");
            }
            s.append(co);
            put_dec(&mut s, " r", x12);
            put_dec(&mut s, ", [r", x16);
            if !p {
                s.append("], ");
            }
            s.append(u);
            if inst & 0x0E00_0000 == 0x0400_0000 {
                put_hex(&mut s, "0x", inst & 0xFFF);
            } else {
                put_dec(&mut s, "(r", x0);
                s.append(" ");
                s.append(Self::shift_type_mnemonic((inst >> 5) & 3));
                put_dec(&mut s, " ", (inst >> 7) & 0x1F);
                s.append(")");
            }
            if p {
                s.append("]");
            }
            s
        } else if inst & 0x0E40_0090 == 0x0040_0090 || inst & 0x0E40_0F90 == 0x0000_0090 {
            let o = (inst >> 5) & 3;
            let mut s = if !load {
                String::from_str("strh")
            } else if o == 1 {
                String::from_str("ldrh")
            } else if o == 2 {
                String::from_str("ldrsb")
            } else if o == 3 {
                String::from_str("ldrsh")
            } else {
                String::from_str("?")
            };
            s.append(co);
            put_dec(&mut s, " r", x12);
            put_dec(&mut s, ", [r", x16);
            if p {
                s.append(" ");
            } else {
                s.append("], ");
            }
            s.append(u);
            if inst & 0x0E40_0090 == 0x0040_0090 {
                put_hex(&mut s, "0x", ((inst >> 4) & 0xF0) | (inst & 0xF));
            } else {
                put_dec(&mut s, "r", x0);
            }
            if p {
                s.append("]");
            }
            s
        } else if inst & 0x0E00_0000 == 0 || inst & 0x0E00_0000 == 0x0200_0000 {
            let mut s = String::from_str(Self::alu_mnemonic(op));
            s.append(co);
            if 0x8 <= op && op <= 0xB {
                put_dec(&mut s, " r", x16);
            } else if op == 0xD || op == 0xF {
                put_dec(&mut s, " r", x12);
            } else {
                put_dec(&mut s, " r", x12);
                put_dec(&mut s, ", r", x16);
            }
            if inst & 0x0E00_0000 == 0 {
                put_dec(&mut s, ", r", x0);
                s.append(" ");
                let sh = Self::shift_mnemonic((inst >> 4) & 1, (inst >> 5) & 3, (inst >> 7) & 0x1F);
                s.append(sh.as_str());
            } else {
                let rot = (inst >> 8) & 0xF;
                let imm = if rot == 0 {
                    inst & 0xFF
                } else {
                    Self::ror_s0(inst & 0xFF, rot)
                };
                put_hex(&mut s, ", #", imm);
            }
            put_dec(&mut s, " (", c);
            s.append(")");
            s
        } else {
            let mut s = String::new();
            push_digits(&mut s, inst, 16, 8);
            s.append("??");
            proof {
                assert(s@ =~= digits(inst as nat, 16, 8) + "??"@);
            }
            s
        }
    }
}

} // verus!

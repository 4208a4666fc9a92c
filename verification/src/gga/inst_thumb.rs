//! The CPU side of THUMB data processing. Memory accesses, branches and
//! wait cycles are done by the system; the ALU instructions here tell it
//! what timing they need.
use vstd::prelude::*;
use crate::gga::alu::{
    add_cpsr, add_result, adc_cpsr, adc_result, asr_out, lsl_out, lsr_out, ror_out, same_but_cpsr,
    sub_cpsr, sub_result, zn, znc,
};
use crate::bits::lemma_mask_bounds;
use crate::gga::registers::{bank_of, bit_set, lemma_with_bit, with_bit, Cpu, Flag};
use crate::gga::inst_generic::{cond_holds, cond_mnemonic, lut_span, span_len};
use crate::text::{dec, digits, hex, push_digits};
use vstd::string::StringExecFns;
use crate::bits::{lemma_bitwise, wrap_add};
use crate::gga::inst_arm::{dp_op, shift_out};

verus! {

/// A THUMB instruction.
#[derive(Copy, Clone)]
pub struct ThumbInst(pub u16);

/// The 3-bit low register number at bit `idx` of an instruction.
pub open spec fn low_field(inst: u16, idx: u16) -> u16 {
    (inst >> idx) & 7
}

impl ThumbInst {
    /// The 3-bit low register number at bit `idx`.
    pub fn low(&self, idx: u16) -> (r: u16)
        requires
            idx < 16,
        ensures
            r == low_field(self.0, idx),
            r < 8,
    {
        proof {
            lemma_mask_bounds();
        }
        (self.0 >> idx) & 7
    }
}

/// Extra time a THUMB ALU instruction takes.
#[derive(Copy, Clone, PartialEq, Eq, Structural, Debug)]
pub enum AluTiming {
    /// No extra cycles.
    Plain,
    /// One internal cycle (register-specified shifts).
    Idle,
    /// Multiply cycles, depending on the first operand.
    Multiply,
}

/// Result, flags and timing of THUMB ALU operation `o` on `rd` and `rs`.
pub open spec fn thumb_op(o: u16, rd: u32, rs: u32, cpsr: u32) -> (u32, u32, AluTiming) {
    let c: u32 = if bit_set(cpsr, 29) { 1 } else { 0 };
    if o == 0x0 {
        (rd & rs, zn(cpsr, rd & rs), AluTiming::Plain)
    } else if o == 0x1 {
        (rd ^ rs, zn(cpsr, rd ^ rs), AluTiming::Plain)
    } else if o == 0x2 {
        let (v, f) = lsl_out(cpsr, rd, rs & 0xFF);
        (v, f, AluTiming::Idle)
    } else if o == 0x3 {
        let (v, f) = lsr_out(cpsr, rd, rs & 0xFF, false);
        (v, f, AluTiming::Idle)
    } else if o == 0x4 {
        let (v, f) = asr_out(cpsr, rd, rs & 0xFF, false);
        (v, f, AluTiming::Idle)
    } else if o == 0x5 {
        (adc_result(rd, rs, c), adc_cpsr(cpsr, rd, rs, c), AluTiming::Plain)
    } else if o == 0x6 {
        (adc_result(rd, !rs, c), adc_cpsr(cpsr, rd, !rs, c), AluTiming::Plain)
    } else if o == 0x7 {
        let (v, f) = ror_out(cpsr, rd, rs & 0xFF, false);
        (v, f, AluTiming::Idle)
    } else if o == 0x8 {
        (rd, zn(cpsr, rd & rs), AluTiming::Plain)
    } else if o == 0x9 {
        (sub_result(0, rs), sub_cpsr(cpsr, 0, rs), AluTiming::Plain)
    } else if o == 0xA {
        (rd, sub_cpsr(cpsr, rd, rs), AluTiming::Plain)
    } else if o == 0xB {
        (rd, add_cpsr(cpsr, rd, rs), AluTiming::Plain)
    } else if o == 0xC {
        (rd | rs, zn(cpsr, rd | rs), AluTiming::Plain)
    } else if o == 0xD {
        let v = ((rd as nat * rs as nat) % 0x1_0000_0000) as u32;
        (v, znc(cpsr, v, false), AluTiming::Multiply)
    } else if o == 0xE {
        (rd & !rs, zn(cpsr, rd & !rs), AluTiming::Plain)
    } else {
        (!rs, zn(cpsr, !rs), AluTiming::Plain)
    }
}

/// What each THUMB ALU operation writes to `rd`, in terms of the two
/// registers: AND keeps the bits set in both, EOR undoes itself, ORR
/// keeps every bit set in either, BIC clears from `rd` every bit set in
/// `rs` and keeps the others, MVN writes the complement of `rs`; TST, CMP
/// and CMN keep `rd`; NEG writes what, added to `rs`, gives 0; ADC and
/// MUL write the sum with the carry and the product, SBC what, added back
/// to `rs` and the borrow, gives `rd`, all modulo 2^32.
pub proof fn lemma_thumb_alu_results(rd: u32, rs: u32, cpsr: u32)
    ensures
        thumb_op(0x0, rd, rs, cpsr).0 & !rd == 0,
        thumb_op(0x0, rd, rs, cpsr).0 & !rs == 0,
        (thumb_op(0x0, rd, rs, cpsr).0 | !rd | !rs) == 0xFFFF_FFFF,
        thumb_op(0x1, rd, rs, cpsr).0 ^ rs == rd,
        thumb_op(0xC, rd, rs, cpsr).0 & rd == rd,
        thumb_op(0xC, rd, rs, cpsr).0 & rs == rs,
        (thumb_op(0xC, rd, rs, cpsr).0 & !rd) & !rs == 0,
        thumb_op(0xE, rd, rs, cpsr).0 & rs == 0,
        (thumb_op(0xE, rd, rs, cpsr).0 | (rd & rs)) == rd,
        thumb_op(0xF, rd, rs, cpsr).0 & rs == 0,
        (thumb_op(0xF, rd, rs, cpsr).0 | rs) == 0xFFFF_FFFF,
        thumb_op(0x8, rd, rs, cpsr).0 == rd,
        thumb_op(0xA, rd, rs, cpsr).0 == rd,
        thumb_op(0xB, rd, rs, cpsr).0 == rd,
        (thumb_op(0x9, rd, rs, cpsr).0 + rs) % 0x1_0000_0000 == 0,
        thumb_op(0x5, rd, rs, cpsr).0 as int == (rd + rs + if bit_set(cpsr, 29) { 1int } else { 0 })
            % 0x1_0000_0000,
        (thumb_op(0x6, rd, rs, cpsr).0 + rs + if bit_set(cpsr, 29) { 0int } else { 1 })
            % 0x1_0000_0000 == rd,
        thumb_op(0xD, rd, rs, cpsr).0 as int == (rd * rs) % 0x1_0000_0000,
{
    lemma_bitwise(rd, rs);
}

/// The THUMB ALU operations that ARM data processing also has compute
/// what the ARM operation computes on the same registers, with the carry
/// flag as carry in: the same result and the same flags. NEG is ARM's RSB
/// with an immediate 0. The register shifts LSL, LSR, ASR and ROR shift
/// `rd` as ARM's shifter does, by the low byte of `rs` (LSL by a non-zero
/// amount; by 0 it only sets N and Z from `rd`).
pub proof fn lemma_thumb_alu_is_arm(rd: u32, rs: u32, cpsr: u32)
    ensures
        rs & 0xFF != 0 ==> (thumb_op(0x2, rd, rs, cpsr).0, thumb_op(0x2, rd, rs, cpsr).1) == shift_out(
            cpsr,
            rd,
            0,
            rs & 0xFF,
            false,
        ),
        rs & 0xFF == 0 ==> (thumb_op(0x2, rd, rs, cpsr).0, thumb_op(0x2, rd, rs, cpsr).1) == (
            rd,
            zn(cpsr, rd),
        ),
        (thumb_op(0x3, rd, rs, cpsr).0, thumb_op(0x3, rd, rs, cpsr).1) == shift_out(
            cpsr,
            rd,
            1,
            rs & 0xFF,
            false,
        ),
        (thumb_op(0x4, rd, rs, cpsr).0, thumb_op(0x4, rd, rs, cpsr).1) == shift_out(
            cpsr,
            rd,
            2,
            rs & 0xFF,
            false,
        ),
        (thumb_op(0x7, rd, rs, cpsr).0, thumb_op(0x7, rd, rs, cpsr).1) == shift_out(
            cpsr,
            rd,
            3,
            rs & 0xFF,
            false,
        ),
        forall|o: u16|
            (o <= 1 || o == 5 || o == 6 || o == 8 || 0xA <= o <= 0xC || 0xE <= o <= 0xF) ==> (
            #[trigger] thumb_op(o, rd, rs, cpsr).0, thumb_op(o, rd, rs, cpsr).1) == dp_op(
                o as u32,
                rd,
                rs,
                bit_set(cpsr, 29),
                rd,
                cpsr,
            ),
        (thumb_op(0x9, rd, rs, cpsr).0, thumb_op(0x9, rd, rs, cpsr).1) == dp_op(
            0x3,
            rs,
            0,
            bit_set(cpsr, 29),
            rd,
            cpsr,
        ),
{
}

/// `after` is `before` with low register `d` set to `v` and CPSR set to
/// `cpsr`.
pub open spec fn low_set(before: Cpu, after: Cpu, d: int, v: u32, cpsr: u32) -> bool {
    &&& after.cpsr == cpsr
    &&& after.low@ == before.low@.update(d, v)
    &&& after.fiqs == before.fiqs && after.sp == before.sp
    &&& after.lr == before.lr && after.spsr == before.spsr
    &&& after.pc == before.pc
}

/// State and timing after THUMB format 4 (ALU operation).
pub open spec fn alu4_post(before: Cpu, after: Cpu, inst: u16, t: AluTiming) -> bool {
    let d = low_field(inst, 0);
    let s = low_field(inst, 3);
    let o = (inst >> 6u16) & 0xF;
    let (v, f, timing) = thumb_op(o, before.low[d as int], before.low[s as int], before.cpsr);
    t == timing && low_set(before, after, d as int, v, f)
}

/// Value and CPSR after THUMB formats 1 and 2 (shift by immediate, add or
/// subtract).
pub open spec fn arith_out(before: Cpu, kind: ThumbArith, inst: u16) -> (u32, u32) {
    let s = low_field(inst, 3);
    let n = (inst >> 6u16) & 0x1F;
    let rs = before.low[s as int];
    let rn = before.low[(n & 7) as int];
    let cp = before.cpsr;
    match kind {
        ThumbArith::Lsl => lsl_out(cp, rs, n as u32),
        ThumbArith::Lsr => lsr_out(cp, rs, n as u32, true),
        ThumbArith::Asr => asr_out(cp, rs, n as u32, true),
        ThumbArith::AddR => (add_result(rs, rn), add_cpsr(cp, rs, rn)),
        ThumbArith::AddI => (add_result(rs, (n & 7) as u32), add_cpsr(cp, rs, (n & 7) as u32)),
        ThumbArith::SubR => (sub_result(rs, rn), sub_cpsr(cp, rs, rn)),
        ThumbArith::SubI => (sub_result(rs, (n & 7) as u32), sub_cpsr(cp, rs, (n & 7) as u32)),
    }
}

/// State after THUMB formats 1 and 2.
pub open spec fn arith_post(before: Cpu, after: Cpu, kind: ThumbArith, inst: u16) -> bool {
    let (v, f) = arith_out(before, kind, inst);
    low_set(before, after, low_field(inst, 0) as int, v, f)
}

/// State after THUMB format 3 (operation with an 8-bit immediate).
pub open spec fn imm_post(before: Cpu, after: Cpu, kind: ThumbImmOp, inst: u16) -> bool {
    let d = low_field(inst, 8) as int;
    let n = (inst & 0xFF) as u32;
    let rd = before.low[d];
    let cp = before.cpsr;
    match kind {
        ThumbImmOp::Mov => low_set(before, after, d, n, zn(cp, n)),
        ThumbImmOp::Cmp => low_set(before, after, d, rd, sub_cpsr(cp, rd, n)),
        ThumbImmOp::Add => low_set(before, after, d, add_result(rd, n), add_cpsr(cp, rd, n)),
        ThumbImmOp::Sub => low_set(before, after, d, sub_result(rd, n), sub_cpsr(cp, rd, n)),
    }
}

/// THUMB format 1 and 2 operations.
#[derive(Copy, Clone, PartialEq, Eq, Structural, Debug)]
pub enum ThumbArith {
    Lsl,
    Lsr,
    Asr,
    AddR,
    AddI,
    SubR,
    SubI,
}

/// THUMB format 3 operations.
#[derive(Copy, Clone, PartialEq, Eq, Structural, Debug)]
pub enum ThumbImmOp {
    Mov,
    Cmp,
    Add,
    Sub,
}

impl Cpu {
    /// THUMB format 4: ALU operation on two low registers.
    pub fn thumb_alu(&mut self, inst: ThumbInst) -> (t: AluTiming)
        ensures
            alu4_post(*old(self), *final(self), inst.0, t),
    {
        let d = inst.low(0);
        let s = inst.low(3);
        let o = (inst.0 >> 6) & 0xF;

        let rd = self.low(d);
        let rs = self.low(s);
        let carry: u32 = if self.flag(Flag::Carry) {
            1
        } else {
            0
        };

        let (value, timing) = if o == 0x0 {
            (self.and(rd, rs), AluTiming::Plain)
        } else if o == 0x1 {
            (self.xor(rd, rs), AluTiming::Plain)
        } else if o == 0x2 {
            (self.lsl(rd, rs & 0xFF), AluTiming::Idle)
        } else if o == 0x3 {
            (self.lsr::<false>(rd, rs & 0xFF), AluTiming::Idle)
        } else if o == 0x4 {
            (self.asr::<false>(rd, rs & 0xFF), AluTiming::Idle)
        } else if o == 0x5 {
            (self.adc(rd, rs, carry), AluTiming::Plain)
        } else if o == 0x6 {
            (self.sbc(rd, rs, carry), AluTiming::Plain)
        } else if o == 0x7 {
            (self.ror::<false>(rd, rs & 0xFF), AluTiming::Idle)
        } else if o == 0x8 {
            // TST
            self.and(rd, rs);
            (rd, AluTiming::Plain)
        } else if o == 0x9 {
            (self.neg(rs), AluTiming::Plain)
        } else if o == 0xA {
            // CMP
            self.sub(rd, rs);
            (rd, AluTiming::Plain)
        } else if o == 0xB {
            // CMN
            self.add(rd, rs);
            (rd, AluTiming::Plain)
        } else if o == 0xC {
            (self.or(rd, rs), AluTiming::Plain)
        } else if o == 0xD {
            (self.mul(rd, rs), AluTiming::Multiply)
        } else if o == 0xE {
            (self.bit_clear(rd, rs), AluTiming::Plain)
        } else {
            (self.not(rs), AluTiming::Plain)
        };
        self.low[d as usize] = value;
        timing
    }

    /// THUMB formats 1 and 2: shift by immediate, add or subtract.
    pub fn thumb_arithmetic(&mut self, kind: ThumbArith, inst: ThumbInst)
        ensures
            arith_post(*old(self), *final(self), kind, inst.0),
    {
        let d = inst.low(0);
        let s = inst.low(3);
        let n = (inst.0 >> 6) & 0x1F;
        let n7 = n & 7;
        proof {
            lemma_mask_bounds();
        }
        let rs = self.low(s);
        let value = match kind {
            ThumbArith::Lsl => self.lsl(rs, n as u32),
            ThumbArith::Lsr => self.lsr::<true>(rs, n as u32),
            ThumbArith::Asr => self.asr::<true>(rs, n as u32),
            ThumbArith::AddR => {
                let rn = self.low(n7);
                self.add(rs, rn)
            },
            ThumbArith::AddI => self.add(rs, n7 as u32),
            ThumbArith::SubR => {
                let rn = self.low(n7);
                self.sub(rs, rn)
            },
            ThumbArith::SubI => self.sub(rs, n7 as u32),
        };
        self.low[d as usize] = value;
    }

    /// THUMB format 3: move, compare, add or subtract an 8-bit immediate.
    pub fn thumb_3(&mut self, kind: ThumbImmOp, inst: ThumbInst)
        ensures
            imm_post(*old(self), *final(self), kind, inst.0),
    {
        let d = inst.low(8);
        let n = (inst.0 & 0xFF) as u32;
        match kind {
            ThumbImmOp::Mov => {
                self.set_zn(n);
                self.low[d as usize] = n;
            },
            ThumbImmOp::Cmp => {
                let rd = self.low(d);
                self.sub(rd, n);
                assert(self.low@ =~= old(self).low@.update(d as int, rd));
            },
            ThumbImmOp::Add => {
                let rd = self.low(d);
                let v = self.add(rd, n);
                self.low[d as usize] = v;
            },
            ThumbImmOp::Sub => {
                let rd = self.low(d);
                let v = self.sub(rd, n);
                self.low[d as usize] = v;
            },
        }
    }
}

/// Kinds of THUMB instruction, told apart by the top byte of the
/// instruction as the dispatch table does.
#[derive(Copy, Clone, PartialEq, Eq, Structural, Debug)]
pub enum ThumbKind {
    /// Formats 1 and 2: shift by immediate, add or subtract.
    Arith(ThumbArith),
    /// Format 3: operation with an 8-bit immediate.
    Imm(ThumbImmOp),
    /// Format 4: ALU operation on low registers.
    Alu,
    /// Format 5: ADD with high registers.
    HiAdd,
    /// Format 5: CMP with high registers.
    HiCmp,
    /// Format 5: MOV with high registers.
    HiMov,
    /// Format 5: BX/BLX.
    HiBx,
    /// Format 6: PC-relative load.
    LdrPc,
    /// Formats 7 and 8: load/store with register offset; the operation
    /// (STR, STRH, STRB, LDSB, LDR, LDRH, LDRB, LDSH).
    LdrStrReg(u16),
    /// Format 9: load/store with immediate offset; the operation (STR, LDR,
    /// STRB, LDRB).
    LdrStrImm(u16),
    /// Format 10: halfword load/store; if it stores.
    LdrStrHalf(bool),
    /// Format 11: SP-relative store.
    StrSp,
    /// Format 11: SP-relative load.
    LdrSp,
    /// Format 12: address relative to SP (true) or PC.
    RelAddr(bool),
    /// Format 13: add an offset to SP.
    SpOffs,
    /// Format 14: PUSH; if LR is pushed too.
    Push(bool),
    /// Format 14: POP; if PC is popped too.
    Pop(bool),
    /// Format 15: store multiple.
    Stmia,
    /// Format 15: load multiple.
    Ldmia,
    /// Format 16: conditional branch, with its condition.
    BCond(u16),
    /// Format 17: software interrupt.
    Swi,
    /// Format 18: unconditional branch.
    Br,
    /// Format 19: first half of a long branch with link.
    SetLr,
    /// Format 19: second half of a long branch with link; if it stays in
    /// THUMB state.
    Bl(bool),
    /// No instruction.
    Unknown,
}

/// The kind of THUMB instruction whose top byte is `hi`.
pub open spec fn thumb_kind(hi: int) -> ThumbKind {
    if hi < 0x08 {
        ThumbKind::Arith(ThumbArith::Lsl)
    } else if hi < 0x10 {
        ThumbKind::Arith(ThumbArith::Lsr)
    } else if hi < 0x18 {
        ThumbKind::Arith(ThumbArith::Asr)
    } else if hi < 0x1A {
        ThumbKind::Arith(ThumbArith::AddR)
    } else if hi < 0x1C {
        ThumbKind::Arith(ThumbArith::SubR)
    } else if hi < 0x1E {
        ThumbKind::Arith(ThumbArith::AddI)
    } else if hi < 0x20 {
        ThumbKind::Arith(ThumbArith::SubI)
    } else if hi < 0x28 {
        ThumbKind::Imm(ThumbImmOp::Mov)
    } else if hi < 0x30 {
        ThumbKind::Imm(ThumbImmOp::Cmp)
    } else if hi < 0x38 {
        ThumbKind::Imm(ThumbImmOp::Add)
    } else if hi < 0x40 {
        ThumbKind::Imm(ThumbImmOp::Sub)
    } else if hi < 0x44 {
        ThumbKind::Alu
    } else if hi == 0x44 {
        ThumbKind::HiAdd
    } else if hi == 0x45 {
        ThumbKind::HiCmp
    } else if hi == 0x46 {
        ThumbKind::HiMov
    } else if hi == 0x47 {
        ThumbKind::HiBx
    } else if hi < 0x50 {
        ThumbKind::LdrPc
    } else if hi < 0x60 {
        ThumbKind::LdrStrReg(((hi - 0x50) / 2) as u16)
    } else if hi < 0x80 {
        ThumbKind::LdrStrImm(((hi - 0x60) / 8) as u16)
    } else if hi < 0x88 {
        ThumbKind::LdrStrHalf(true)
    } else if hi < 0x90 {
        ThumbKind::LdrStrHalf(false)
    } else if hi < 0x98 {
        ThumbKind::StrSp
    } else if hi < 0xA0 {
        ThumbKind::LdrSp
    } else if hi < 0xA8 {
        ThumbKind::RelAddr(false)
    } else if hi < 0xB0 {
        ThumbKind::RelAddr(true)
    } else if hi == 0xB0 {
        ThumbKind::SpOffs
    } else if hi == 0xB4 {
        ThumbKind::Push(false)
    } else if hi == 0xB5 {
        ThumbKind::Push(true)
    } else if hi == 0xBC {
        ThumbKind::Pop(false)
    } else if hi == 0xBD {
        ThumbKind::Pop(true)
    } else if hi < 0xC0 {
        ThumbKind::Unknown
    } else if hi < 0xC8 {
        ThumbKind::Stmia
    } else if hi < 0xD0 {
        ThumbKind::Ldmia
    } else if hi < 0xDF {
        ThumbKind::BCond((hi - 0xD0) as u16)
    } else if hi == 0xDF {
        ThumbKind::Swi
    } else if hi < 0xE8 {
        ThumbKind::Br
    } else if hi < 0xF0 {
        ThumbKind::Bl(false)
    } else if hi < 0xF8 {
        ThumbKind::SetLr
    } else {
        ThumbKind::Bl(true)
    }
}

/// The dispatch table is the kind of each top byte.
pub open spec fn is_thumb_lut(lut: Seq<ThumbKind>) -> bool {
    &&& lut.len() == 256
    &&& forall|i: int| 0 <= i < 256 ==> #[trigger] lut[i] == thumb_kind(i)
}

/// Build the THUMB dispatch table, indexed by the top byte of an
/// instruction.
pub fn make_thumb_lut() -> (lut: Vec<ThumbKind>)
    ensures
        is_thumb_lut(lut@),
{
    let mut lut: Vec<ThumbKind> = Vec::new();
    let mut k: usize = 0;
    while k < 256
        invariant
            k <= 256,
            lut.len() == k,
            forall|i: int| 0 <= i < k ==> #[trigger] lut[i] == ThumbKind::Unknown,
        decreases 256 - k,
    {
        lut.push(ThumbKind::Unknown);
        k += 1;
    }

    lut[0b11011111] = ThumbKind::Swi;
    lut[0b10110000] = ThumbKind::SpOffs;

    lut[0b01000100] = ThumbKind::HiAdd;
    lut[0b01000101] = ThumbKind::HiCmp;
    lut[0b01000110] = ThumbKind::HiMov;
    lut[0b01000111] = ThumbKind::HiBx;

    lut_span(&mut lut, 0b00000, 5, ThumbKind::Arith(ThumbArith::Lsl));
    lut_span(&mut lut, 0b00001, 5, ThumbKind::Arith(ThumbArith::Lsr));
    lut_span(&mut lut, 0b00010, 5, ThumbKind::Arith(ThumbArith::Asr));
    lut_span(&mut lut, 0b0001100, 7, ThumbKind::Arith(ThumbArith::AddR));
    lut_span(&mut lut, 0b0001101, 7, ThumbKind::Arith(ThumbArith::SubR));
    lut_span(&mut lut, 0b0001110, 7, ThumbKind::Arith(ThumbArith::AddI));
    lut_span(&mut lut, 0b0001111, 7, ThumbKind::Arith(ThumbArith::SubI));

    lut_span(&mut lut, 0b00100, 5, ThumbKind::Imm(ThumbImmOp::Mov));
    lut_span(&mut lut, 0b00101, 5, ThumbKind::Imm(ThumbImmOp::Cmp));
    lut_span(&mut lut, 0b00110, 5, ThumbKind::Imm(ThumbImmOp::Add));
    lut_span(&mut lut, 0b00111, 5, ThumbKind::Imm(ThumbImmOp::Sub));

    lut_span(&mut lut, 0b010000, 6, ThumbKind::Alu);
    lut_span(&mut lut, 0b01001, 5, ThumbKind::LdrPc);

    let mut o: u16 = 0;
    while o < 8
        invariant
            o <= 8,
            lut.len() == 256,
            forall|i: int| 0 <= i < 0x50 ==> #[trigger] lut[i] == thumb_kind(i),
            forall|i: int| 0x50 <= i < 0x50 + 2 * o ==> #[trigger] lut[i] == thumb_kind(i),
            forall|i: int| 0x50 + 2 * o <= i < 256 && i != 0xB0 && i != 0xDF ==> #[trigger] lut[i] == ThumbKind::Unknown,
            lut[0xB0] == ThumbKind::SpOffs,
            lut[0xDF] == ThumbKind::Swi,
        decreases 8 - o,
    {
        lut_span(&mut lut, 0b0101000 + o as usize, 7, ThumbKind::LdrStrReg(o));
        o += 1;
    }
    let mut o: u16 = 0;
    while o < 4
        invariant
            o <= 4,
            lut.len() == 256,
            forall|i: int| 0 <= i < 0x60 + 8 * o ==> #[trigger] lut[i] == thumb_kind(i),
            forall|i: int| 0x60 + 8 * o <= i < 256 && i != 0xB0 && i != 0xDF ==> #[trigger] lut[i] == ThumbKind::Unknown,
            lut[0xB0] == ThumbKind::SpOffs,
            lut[0xDF] == ThumbKind::Swi,
        decreases 4 - o,
    {
        lut_span(&mut lut, 0b01100 + o as usize, 5, ThumbKind::LdrStrImm(o));
        o += 1;
    }
    lut_span(&mut lut, 0b10000, 5, ThumbKind::LdrStrHalf(true));
    lut_span(&mut lut, 0b10001, 5, ThumbKind::LdrStrHalf(false));
    lut_span(&mut lut, 0b10010, 5, ThumbKind::StrSp);
    lut_span(&mut lut, 0b10011, 5, ThumbKind::LdrSp);

    lut_span(&mut lut, 0b10100, 5, ThumbKind::RelAddr(false));
    lut_span(&mut lut, 0b10101, 5, ThumbKind::RelAddr(true));

    lut[0b10110100] = ThumbKind::Push(false);
    lut[0b10110101] = ThumbKind::Push(true);
    lut[0b10111100] = ThumbKind::Pop(false);
    lut[0b10111101] = ThumbKind::Pop(true);
    lut_span(&mut lut, 0b11000, 5, ThumbKind::Stmia);
    lut_span(&mut lut, 0b11001, 5, ThumbKind::Ldmia);

    let mut c: u16 = 0;
    while c < 0xF
        invariant
            c <= 0xF,
            lut.len() == 256,
            forall|i: int| 0 <= i < 0xD0 + c ==> #[trigger] lut[i] == thumb_kind(i),
            forall|i: int| 0xD0 + c <= i < 256 && i != 0xDF ==> #[trigger] lut[i] == ThumbKind::Unknown,
            lut[0xDF] == ThumbKind::Swi,
        decreases 0xF - c,
    {
        lut[0xD0 + c as usize] = ThumbKind::BCond(c);
        c += 1;
    }

    lut_span(&mut lut, 0b11100, 5, ThumbKind::Br);
    lut_span(&mut lut, 0b11110, 5, ThumbKind::SetLr);
    lut_span(&mut lut, 0b11101, 5, ThumbKind::Bl(false));
    lut_span(&mut lut, 0b11111, 5, ThumbKind::Bl(true));

    lut
}

/// Source register of THUMB format 5: bits 3 to 6.
pub open spec fn hi_src(inst: u16) -> u32 {
    ((inst >> 3u16) & 0xF) as u32
}

/// Destination register of THUMB format 5: bits 0 to 2, with bit 7 as
/// bit 3.
pub open spec fn hi_dst(inst: u16) -> u32 {
    ((inst & 7) | (((inst >> 7u16) & 1) << 3u16)) as u32
}

/// The low byte of `v` as a signed value.
pub open spec fn sext8(v: u16) -> int {
    let b = v & 0xFF;
    if b >= 0x80 {
        b - 0x100
    } else {
        b as int
    }
}

/// The low 11 bits of `v` as a signed value.
pub open spec fn sext11(v: u16) -> int {
    let b = v & 0x7FF;
    if b >= 0x400 {
        b - 0x800
    } else {
        b as int
    }
}

/// If THUMB instruction `inst` can run on the CPU state: the addresses it
/// computes do not overflow and the return address of a long branch does
/// not underflow.
pub open spec fn thumb_can_execute(c: Cpu, inst: u16) -> bool {
    let sp = c.sp[bank_of(c.mode_spec())];
    let n = (inst & 0xFF) * 4;
    let off = (inst & 0x7F) * 4;
    match thumb_kind((inst >> 8u16) as int) {
        ThumbKind::RelAddr(true) => sp + n <= u32::MAX,
        ThumbKind::RelAddr(false) => (c.pc & !2u32) + n <= u32::MAX,
        ThumbKind::SpOffs => if inst & 0x80 != 0 {
            sp >= off
        } else {
            sp + off <= u32::MAX
        },
        ThumbKind::Bl(_) => c.pc >= 1,
        _ => true,
    }
}

/// A THUMB instruction the CPU executed.
#[derive(Copy, Clone, PartialEq, Eq, Structural, Debug)]
pub struct ThumbDone {
    /// The PC was written: the pipeline is to be refilled.
    pub pc_written: bool,
    /// Extra time the instruction takes.
    pub timing: AluTiming,
}

/// Outcome of executing a THUMB instruction on the CPU.
#[derive(Copy, Clone, PartialEq, Eq, Structural, Debug)]
pub enum ThumbOutcome {
    /// The instruction was executed.
    Done(ThumbDone),
    /// A software interrupt: the system enters the exception.
    Swi,
    /// The instruction accesses memory: the system performs it.
    Memory(ThumbKind),
    /// No instruction matches: the system logs it.
    Unknown,
}

/// State and outcome after executing THUMB instruction `inst`.
pub open spec fn thumb_post(before: Cpu, after: Cpu, inst: u16, r: ThumbOutcome) -> bool {
    let plain = ThumbOutcome::Done(ThumbDone { pc_written: false, timing: AluTiming::Plain });
    let jumped = ThumbOutcome::Done(ThumbDone { pc_written: true, timing: AluTiming::Plain });
    let m = before.mode_spec();
    let s = hi_src(inst);
    let d = hi_dst(inst);
    let rs = before.reg_spec(s);
    let rd = before.reg_spec(d);
    match thumb_kind((inst >> 8u16) as int) {
        ThumbKind::Arith(k) => r == plain && arith_post(before, after, k, inst),
        ThumbKind::Imm(k) => r == plain && imm_post(before, after, k, inst),
        ThumbKind::Alu => {
            &&& r matches ThumbOutcome::Done(done)
            &&& !done.pc_written
            &&& alu4_post(before, after, inst, done.timing)
        },
        ThumbKind::HiAdd => {
            &&& r == ThumbOutcome::Done(ThumbDone { pc_written: d >= 15, timing: AluTiming::Plain })
            &&& Cpu::reg_written(before, after, d, add_result(rd, rs))
        },
        ThumbKind::HiCmp => r == plain && after == Cpu { cpsr: sub_cpsr(before.cpsr, rd, rs), ..before },
        ThumbKind::HiMov => {
            &&& r == ThumbOutcome::Done(ThumbDone { pc_written: d >= 15, timing: AluTiming::Plain })
            &&& Cpu::reg_written(before, after, d, rs)
        },
        ThumbKind::HiBx => {
            let arm = Cpu { cpsr: with_bit(before.cpsr, 5, false), ..before };
            &&& r == jumped
            &&& inst & 0x80 != 0 ==> Cpu::reg_written(before, after, 15, rs)
            &&& inst & 0x80 == 0 && s == 15 ==> Cpu::reg_written(arm, after, 15, before.pc)
            &&& inst & 0x80 == 0 && s != 15 && rs % 2 == 0 ==> Cpu::reg_written(arm, after, 15, rs & !3u32)
            &&& inst & 0x80 == 0 && s != 15 && rs % 2 == 1 ==> Cpu::reg_written(before, after, 15, rs & !1u32)
        },
        ThumbKind::RelAddr(from_sp) => {
            let base = if from_sp { before.sp[bank_of(m)] } else { before.pc & !2u32 };
            r == plain && Cpu::reg_written(before, after, low_field(inst, 8) as u32, (base + (inst & 0xFF) * 4) as u32)
        },
        ThumbKind::SpOffs => {
            let sp = before.sp[bank_of(m)];
            let off = (inst & 0x7F) * 4;
            r == plain && Cpu::reg_written(
                before,
                after,
                13,
                (if inst & 0x80 != 0 { sp - off } else { sp + off }) as u32,
            )
        },
        ThumbKind::BCond(c) => if cond_holds(
            c,
            before.flag_spec(Flag::Neg),
            before.flag_spec(Flag::Zero),
            before.flag_spec(Flag::Carry),
            before.flag_spec(Flag::Overflow),
        ) {
            r == jumped && Cpu::reg_written(before, after, 15, wrap_add(before.pc, (sext8(inst) * 2) as i32))
        } else {
            r == plain && after == before
        },
        ThumbKind::Swi => r == ThumbOutcome::Swi && after == before,
        ThumbKind::Br => r == jumped && Cpu::reg_written(
            before,
            after,
            15,
            wrap_add(before.pc, (sext11(inst) * 2) as i32),
        ),
        ThumbKind::SetLr => r == plain && Cpu::reg_written(
            before,
            after,
            14,
            wrap_add(before.pc, (sext11(inst) * 4096) as i32),
        ),
        ThumbKind::Bl(thumb) => {
            let target = add_result(before.lr[bank_of(m)], ((inst & 0x7FF) * 2) as u32);
            &&& r == jumped
            &&& after.pc == target & !((before.inst_size_spec() - 1) as u32)
            &&& after.lr@ == before.lr@.update(bank_of(m), (before.pc - 1) as u32)
            &&& after.cpsr == with_bit(before.cpsr, 5, thumb)
            &&& after.low == before.low && after.fiqs == before.fiqs
            &&& after.sp == before.sp && after.spsr == before.spsr
        },
        ThumbKind::Unknown => r == ThumbOutcome::Unknown && after == before,
        k => r == ThumbOutcome::Memory(k) && after == before,
    }
}

/// Writing the flags (bits 28 to 31) or the THUMB bit leaves the mode
/// bits alone.
proof fn lemma_flag_writes_keep_mode(cpsr: u32)
    ensures
        forall|v: u32| #[trigger] zn(cpsr, v) & 0x1F == cpsr & 0x1F,
        forall|v: u32, c: bool| #[trigger] znc(cpsr, v, c) & 0x1F == cpsr & 0x1F,
        forall|v: u32, c: bool, o: bool| #[trigger] with_bit(znc(cpsr, v, c), 28, o) & 0x1F == cpsr & 0x1F,
        forall|b: bool| #[trigger] with_bit(cpsr, 5, b) & 0x1F == cpsr & 0x1F,
{
    assert forall|v: u32| #[trigger] zn(cpsr, v) & 0x1F == cpsr & 0x1F by {
        lemma_with_bit(cpsr, 30, v == 0);
        lemma_with_bit(with_bit(cpsr, 30, v == 0), 31, bit_set(v, 31));
    }
    assert forall|v: u32, c: bool| #[trigger] znc(cpsr, v, c) & 0x1F == cpsr & 0x1F by {
        lemma_with_bit(cpsr, 30, v == 0);
        lemma_with_bit(with_bit(cpsr, 30, v == 0), 31, bit_set(v, 31));
        lemma_with_bit(zn(cpsr, v), 29, c);
    }
    assert forall|v: u32, c: bool, o: bool| #[trigger] with_bit(znc(cpsr, v, c), 28, o) & 0x1F == cpsr & 0x1F by {
        lemma_with_bit(cpsr, 30, v == 0);
        lemma_with_bit(with_bit(cpsr, 30, v == 0), 31, bit_set(v, 31));
        lemma_with_bit(zn(cpsr, v), 29, c);
        lemma_with_bit(znc(cpsr, v, c), 28, o);
    }
    assert forall|b: bool| #[trigger] with_bit(cpsr, 5, b) & 0x1F == cpsr & 0x1F by {
        lemma_with_bit(cpsr, 5, b);
    }
}

/// THUMB data processing leaves the mode bits alone.
proof fn lemma_data_ops_keep_mode(before: Cpu, inst: u16)
    ensures
        forall|k: ThumbArith| #[trigger] arith_out(before, k, inst).1 & 0x1F == before.cpsr & 0x1F,
        ({
            let (v, f, t) = thumb_op(
                (inst >> 6u16) & 0xF,
                before.low[low_field(inst, 0) as int],
                before.low[low_field(inst, 3) as int],
                before.cpsr,
            );
            f & 0x1F == before.cpsr & 0x1F
        }),
{
    lemma_flag_writes_keep_mode(before.cpsr);
    let rd = before.low[low_field(inst, 0) as int];
    let rs = before.low[low_field(inst, 3) as int];
    let cp = before.cpsr;
    let c: u32 = if bit_set(cp, 29) { 1 } else { 0 };
    assert(adc_cpsr(cp, rd, rs, c) & 0x1F == cp & 0x1F) by {
        let res = adc_result(rd, rs, c);
        assert(znc(cp, res, rd + rs + c > u32::MAX) & 0x1F == cp & 0x1F);
    }
    assert(adc_cpsr(cp, rd, !rs, c) & 0x1F == cp & 0x1F) by {
        let res = adc_result(rd, !rs, c);
        assert(znc(cp, res, rd + !rs + c > u32::MAX) & 0x1F == cp & 0x1F);
    }
    assert forall|k: ThumbArith| #[trigger] arith_out(before, k, inst).1 & 0x1F == before.cpsr & 0x1F by {
        let s = low_field(inst, 3);
        let n = (inst >> 6u16) & 0x1F;
        let rs = before.low[s as int];
        let rn = before.low[(n & 7) as int];
        let cp = before.cpsr;
        match k {
            ThumbArith::Lsl => {
                assert(lsl_out(cp, rs, n as u32).1 & 0x1F == cp & 0x1F);
            },
            ThumbArith::Lsr => {
                assert(lsr_out(cp, rs, n as u32, true).1 & 0x1F == cp & 0x1F);
            },
            ThumbArith::Asr => {
                assert(asr_out(cp, rs, n as u32, true).1 & 0x1F == cp & 0x1F);
            },
            ThumbArith::AddR => {
                assert(add_cpsr(cp, rs, rn) & 0x1F == cp & 0x1F);
            },
            ThumbArith::AddI => {
                assert(add_cpsr(cp, rs, (n & 7) as u32) & 0x1F == cp & 0x1F);
            },
            ThumbArith::SubR => {
                assert(sub_cpsr(cp, rs, rn) & 0x1F == cp & 0x1F);
            },
            ThumbArith::SubI => {
                assert(sub_cpsr(cp, rs, (n & 7) as u32) & 0x1F == cp & 0x1F);
            },
        }
    }
}

impl Cpu {
    /// Execute a THUMB instruction as far as the CPU goes, dispatching on
    /// its top byte through `lut`. Instructions that access memory, and
    /// software interrupts, are handed back to the system.
    pub fn execute_inst_thumb(&mut self, lut: &Vec<ThumbKind>, inst: u16) -> (r: ThumbOutcome)
        requires
            old(self).wf(),
            is_thumb_lut(lut@),
            thumb_can_execute(*old(self), inst),
        ensures
            final(self).wf(),
            thumb_post(*old(self), *final(self), inst, r),
    {
        proof {
            lemma_mask_bounds();
            lemma_flag_writes_keep_mode(self.cpsr);
            lemma_data_ops_keep_mode(*self, inst);
        }
        let plain = ThumbOutcome::Done(ThumbDone { pc_written: false, timing: AluTiming::Plain });
        let jumped = ThumbOutcome::Done(ThumbDone { pc_written: true, timing: AluTiming::Plain });
        let kind = lut[(inst >> 8) as usize];
        match kind {
            ThumbKind::Arith(k) => {
                self.thumb_arithmetic(k, ThumbInst(inst));
                plain
            },
            ThumbKind::Imm(k) => {
                self.thumb_3(k, ThumbInst(inst));
                plain
            },
            ThumbKind::Alu => {
                let timing = self.thumb_alu(ThumbInst(inst));
                ThumbOutcome::Done(ThumbDone { pc_written: false, timing })
            },
            ThumbKind::HiAdd => {
                let s = ((inst >> 3) & 0xF) as u32;
                let d = ((inst & 7) | (((inst >> 7) & 1) << 3)) as u32;
                let res = self.reg(d).wrapping_add(self.reg(s));
                let w = self.set_reg(d, res);
                ThumbOutcome::Done(ThumbDone { pc_written: w, timing: AluTiming::Plain })
            },
            ThumbKind::HiCmp => {
                let s = ((inst >> 3) & 0xF) as u32;
                let d = ((inst & 7) | (((inst >> 7) & 1) << 3)) as u32;
                let a = self.reg(d);
                let b = self.reg(s);
                self.sub(a, b);
                plain
            },
            ThumbKind::HiMov => {
                let s = ((inst >> 3) & 0xF) as u32;
                let d = ((inst & 7) | (((inst >> 7) & 1) << 3)) as u32;
                let v = self.reg(s);
                let w = self.set_reg(d, v);
                ThumbOutcome::Done(ThumbDone { pc_written: w, timing: AluTiming::Plain })
            },
            ThumbKind::HiBx => {
                self.thumb_hi_bx(inst);
                jumped
            },
            ThumbKind::RelAddr(from_sp) => {
                let d = ((inst >> 8) & 7) as u32;
                let n = ((inst & 0xFF) as u32) << 2;
                proof {
                    assert(((inst & 0xFF) as u32) << 2 == (inst & 0xFF) * 4) by (bit_vector);
                }
                let v = if from_sp {
                    self.sp() + n
                } else {
                    self.adj_pc() + n
                };
                self.set_reg(d, v);
                plain
            },
            ThumbKind::SpOffs => {
                let n = ((inst & 0x7F) << 2) as u32;
                proof {
                    assert((inst & 0x7F) << 2 == (inst & 0x7F) * 4) by (bit_vector);
                }
                let sp = self.sp();
                if inst & 0x80 != 0 {
                    self.set_sp(sp - n);
                } else {
                    self.set_sp(sp + n);
                }
                plain
            },
            ThumbKind::BCond(c) => {
                if self.eval_condition(c) {
                    // Step 2
                    let b = (inst & 0xFF) as i32;
                    let nn: i32 = if b >= 0x80 {
                        (b - 0x100) * 2
                    } else {
                        b * 2
                    };
                    let target = self.pc.wrapping_add_signed(nn);
                    self.set_reg(15, target);
                    jumped
                } else {
                    plain
                }
            },
            ThumbKind::Swi => ThumbOutcome::Swi,
            ThumbKind::Br => {
                // Step 2
                let nn = sext11_exec(inst) * 2;
                let target = self.pc.wrapping_add_signed(nn);
                self.set_reg(15, target);
                jumped
            },
            ThumbKind::SetLr => {
                let nn = sext11_exec(inst) * 4096;
                let lr = self.pc.wrapping_add_signed(nn);
                self.set_lr(lr);
                plain
            },
            ThumbKind::Bl(thumb) => {
                let pc = self.pc;
                let target = self.lr().wrapping_add(((inst & 0x7FF) as u32) << 1);
                proof {
                    assert(((inst & 0x7FF) as u32) << 1 == (inst & 0x7FF) * 2) by (bit_vector);
                }
                self.set_reg(15, target);
                self.set_lr(pc - 1);
                self.set_flag(Flag::Thumb, thumb);
                jumped
            },
            ThumbKind::Unknown => ThumbOutcome::Unknown,
            other => ThumbOutcome::Memory(other),
        }
    }

    /// THUMB format 5: BX/BLX.
    fn thumb_hi_bx(&mut self, inst: u16)
        requires
            old(self).wf(),
        ensures
            final(self).wf(),
            ({
                let s = hi_src(inst);
                let rs = old(self).reg_spec(s);
                let arm = Cpu { cpsr: with_bit(old(self).cpsr, 5, false), ..*old(self) };
                &&& inst & 0x80 != 0 ==> Cpu::reg_written(*old(self), *final(self), 15, rs)
                &&& inst & 0x80 == 0 && s == 15 ==> Cpu::reg_written(arm, *final(self), 15, old(self).pc)
                &&& inst & 0x80 == 0 && s != 15 && rs % 2 == 0 ==> Cpu::reg_written(arm, *final(self), 15, rs & !3u32)
                &&& inst & 0x80 == 0 && s != 15 && rs % 2 == 1 ==> Cpu::reg_written(*old(self), *final(self), 15, rs & !1u32)
            }),
    {
        proof {
            lemma_with_bit(self.cpsr, 5, false);
        }
        let s = ((inst >> 3) & 0xF) as u32;
        if inst & 0x80 != 0 {
            // BLX
            let v = self.reg(s);
            self.set_reg(15, v);
        } else if s == 15 {
            // BX ARM switch
            self.set_flag(Flag::Thumb, false);
            let pc = self.pc;
            // Align
            self.set_reg(15, pc);
        } else {
            // BX
            let v = self.reg(s);
            if v % 2 == 0 {
                self.set_flag(Flag::Thumb, false);
                self.set_reg(15, v & !3);
            } else {
                self.set_reg(15, v & !1);
            }
        }
    }
}

/// The low 11 bits of `v` as a signed value.
fn sext11_exec(v: u16) -> (r: i32)
    ensures
        r == sext11(v),
{
    proof {
        lemma_mask_bounds();
    }
    let b = (v & 0x7FF) as i32;
    if b >= 0x400 {
        b - 0x800
    } else {
        b
    }
}

/// The kind of THUMB instruction `inst`, from its top byte.
pub fn decode_thumb(inst: u16) -> (k: ThumbKind)
    ensures
        k == thumb_kind((inst >> 8u16) as int),
{
    proof {
        lemma_mask_bounds();
    }
    let hi = inst >> 8;
    if hi < 0x08 {
        ThumbKind::Arith(ThumbArith::Lsl)
    } else if hi < 0x10 {
        ThumbKind::Arith(ThumbArith::Lsr)
    } else if hi < 0x18 {
        ThumbKind::Arith(ThumbArith::Asr)
    } else if hi < 0x1A {
        ThumbKind::Arith(ThumbArith::AddR)
    } else if hi < 0x1C {
        ThumbKind::Arith(ThumbArith::SubR)
    } else if hi < 0x1E {
        ThumbKind::Arith(ThumbArith::AddI)
    } else if hi < 0x20 {
        ThumbKind::Arith(ThumbArith::SubI)
    } else if hi < 0x28 {
        ThumbKind::Imm(ThumbImmOp::Mov)
    } else if hi < 0x30 {
        ThumbKind::Imm(ThumbImmOp::Cmp)
    } else if hi < 0x38 {
        ThumbKind::Imm(ThumbImmOp::Add)
    } else if hi < 0x40 {
        ThumbKind::Imm(ThumbImmOp::Sub)
    } else if hi < 0x44 {
        ThumbKind::Alu
    } else if hi == 0x44 {
        ThumbKind::HiAdd
    } else if hi == 0x45 {
        ThumbKind::HiCmp
    } else if hi == 0x46 {
        ThumbKind::HiMov
    } else if hi == 0x47 {
        ThumbKind::HiBx
    } else if hi < 0x50 {
        ThumbKind::LdrPc
    } else if hi < 0x60 {
        ThumbKind::LdrStrReg((hi - 0x50) / 2)
    } else if hi < 0x80 {
        ThumbKind::LdrStrImm((hi - 0x60) / 8)
    } else if hi < 0x88 {
        ThumbKind::LdrStrHalf(true)
    } else if hi < 0x90 {
        ThumbKind::LdrStrHalf(false)
    } else if hi < 0x98 {
        ThumbKind::StrSp
    } else if hi < 0xA0 {
        ThumbKind::LdrSp
    } else if hi < 0xA8 {
        ThumbKind::RelAddr(false)
    } else if hi < 0xB0 {
        ThumbKind::RelAddr(true)
    } else if hi == 0xB0 {
        ThumbKind::SpOffs
    } else if hi == 0xB4 {
        ThumbKind::Push(false)
    } else if hi == 0xB5 {
        ThumbKind::Push(true)
    } else if hi == 0xBC {
        ThumbKind::Pop(false)
    } else if hi == 0xBD {
        ThumbKind::Pop(true)
    } else if hi < 0xC0 {
        ThumbKind::Unknown
    } else if hi < 0xC8 {
        ThumbKind::Stmia
    } else if hi < 0xD0 {
        ThumbKind::Ldmia
    } else if hi < 0xDF {
        ThumbKind::BCond(hi - 0xD0)
    } else if hi == 0xDF {
        ThumbKind::Swi
    } else if hi < 0xE8 {
        ThumbKind::Br
    } else if hi < 0xF0 {
        ThumbKind::Bl(false)
    } else if hi < 0xF8 {
        ThumbKind::SetLr
    } else {
        ThumbKind::Bl(true)
    }
}

/// Mnemonic of THUMB ALU operation `o`.
pub open spec fn thumb_alu_name(o: u16) -> Seq<char> {
    if o == 0x0 {
        "and"@
    } else if o == 0x1 {
        "eor"@
    } else if o == 0x2 {
        "lsl"@
    } else if o == 0x3 {
        "lsr"@
    } else if o == 0x4 {
        "asr"@
    } else if o == 0x5 {
        "add"@
    } else if o == 0x6 {
        "sub"@
    } else if o == 0x7 {
        "ror"@
    } else if o == 0x8 {
        "tst"@
    } else if o == 0x9 {
        "neg"@
    } else if o == 0xA {
        "cmp"@
    } else if o == 0xB {
        "cmn"@
    } else if o == 0xC {
        "orr"@
    } else if o == 0xD {
        "mul"@
    } else if o == 0xE {
        "bic"@
    } else {
        "mvn"@
    }
}

/// Mnemonic of THUMB load/store operation `o` with a register offset.
pub open spec fn thumb_reg_transfer_name(o: u16) -> Seq<char> {
    if o == 0 {
        "str"@
    } else if o == 1 {
        "strh"@
    } else if o == 2 {
        "strb"@
    } else if o == 3 {
        "ldsb"@
    } else if o == 4 {
        "ldr"@
    } else if o == 5 {
        "ldrh"@
    } else if o == 6 {
        "ldrb"@
    } else {
        "ldsh"@
    }
}

/// Mnemonic of THUMB load/store operation `o` with an immediate offset.
pub open spec fn thumb_imm_transfer_name(o: u16) -> Seq<char> {
    if o == 0 {
        "str"@
    } else if o == 1 {
        "ldr"@
    } else if o == 2 {
        "strb"@
    } else {
        "ldrb"@
    }
}

/// A signed 16-bit value as its two's complement bits.
pub open spec fn bits16(v: int) -> nat {
    (v % 0x1_0000) as nat
}

/// Disassembly of THUMB instruction `inst`.
pub open spec fn thumb_mnemonic(inst: u16) -> Seq<char> {
    let d = dec(low_field(inst, 0) as nat);
    let s = dec(low_field(inst, 3) as nat);
    let d8 = dec(low_field(inst, 8) as nat);
    let n5 = ((inst >> 6u16) & 0x1F) as nat;
    let n3 = dec(low_field(inst, 6) as nat);
    let n8 = (inst & 0xFF) as nat;
    let n11 = (inst & 0x7FF) as nat;
    let hs = dec(hi_src(inst) as nat);
    let hd = dec(hi_dst(inst) as nat);
    match thumb_kind((inst >> 8u16) as int) {
        ThumbKind::Arith(ThumbArith::Lsl) => "lsl r"@ + d + ", r"@ + s + ", #0x"@ + hex(n5),
        ThumbKind::Arith(ThumbArith::Lsr) => "lsr r"@ + d + ", r"@ + s + ", #0x"@ + hex(n5),
        ThumbKind::Arith(ThumbArith::Asr) => "asr r"@ + d + ", r"@ + s + ", #0x"@ + hex(n5),
        ThumbKind::Arith(ThumbArith::AddR) => "add r"@ + d + ", r"@ + s + ", r"@ + n3,
        ThumbKind::Arith(ThumbArith::SubR) => "sub r"@ + d + ", r"@ + s + ", r"@ + n3,
        ThumbKind::Arith(ThumbArith::AddI) => "add r"@ + d + ", r"@ + s + ", #0x"@ + hex(
            low_field(inst, 6) as nat,
        ),
        ThumbKind::Arith(ThumbArith::SubI) => "sub r"@ + d + ", r"@ + s + ", #0x"@ + hex(
            low_field(inst, 6) as nat,
        ),
        ThumbKind::Imm(ThumbImmOp::Mov) => "mov r"@ + d8 + ", #"@ + dec(n8),
        ThumbKind::Imm(ThumbImmOp::Cmp) => "cmp r"@ + d8 + ", #"@ + dec(n8),
        ThumbKind::Imm(ThumbImmOp::Add) => "add r"@ + d8 + ", #"@ + dec(n8),
        ThumbKind::Imm(ThumbImmOp::Sub) => "sub r"@ + d8 + ", #"@ + dec(n8),
        ThumbKind::Alu => {
            let o = (inst >> 6u16) & 0xF;
            if o == 0x8 {
                thumb_alu_name(o) + " r"@ + s
            } else {
                thumb_alu_name(o) + " r"@ + d + ", r"@ + s
            }
        },
        ThumbKind::HiAdd => "add r"@ + hd + ", r"@ + hs,
        ThumbKind::HiCmp => "cmp r"@ + hd + ", r"@ + hs,
        ThumbKind::HiMov => "mov r"@ + hd + ", r"@ + hs,
        ThumbKind::HiBx => if inst & 0x80 != 0 {
            "blx r"@ + hs
        } else {
            "bx r"@ + hs
        },
        ThumbKind::LdrPc => "ldr r"@ + d8 + ", [PC, #0x"@ + hex(n8 * 4) + "]"@,
        ThumbKind::LdrStrReg(o) => thumb_reg_transfer_name(o) + " r"@ + d + ", [r"@ + s + ", r"@ + n3 + "]"@,
        ThumbKind::LdrStrImm(o) => thumb_imm_transfer_name(o) + " r"@ + d + ", [r"@ + s + ", #0x"@ + hex(n5)
            + "]"@,
        ThumbKind::LdrStrHalf(true) => "strh r"@ + d + ", [r"@ + s + ", #0x"@ + hex(n5 * 2) + "]"@,
        ThumbKind::LdrStrHalf(false) => "ldrh r"@ + d + ", [r"@ + s + ", #0x"@ + hex(n5 * 2) + "]"@,
        ThumbKind::StrSp => "str r"@ + d8 + ", [sp, #0x"@ + hex(n8 * 4) + "]"@,
        ThumbKind::LdrSp => "ldr r"@ + d8 + ", [sp, #0x"@ + hex(n8 * 4) + "]"@,
        ThumbKind::RelAddr(false) => "add r"@ + d8 + ", pc, #0x"@ + hex(n8 * 4),
        ThumbKind::RelAddr(true) => "add r"@ + d8 + ", sp, #0x"@ + hex(n8 * 4),
        ThumbKind::SpOffs => if inst & 0x80 != 0 {
            "add sp, #-0x"@ + hex(((inst & 0x7F) * 4) as nat)
        } else {
            "add sp, #0x"@ + hex(((inst & 0x7F) * 4) as nat)
        },
        ThumbKind::Push(false) => "push "@ + digits(n8, 2, 8),
        ThumbKind::Push(true) => "push "@ + digits(n8, 2, 8) + ", lr"@,
        ThumbKind::Pop(false) => "pop "@ + digits(n8, 2, 8),
        ThumbKind::Pop(true) => "pop "@ + digits(n8, 2, 8) + ", pc"@,
        ThumbKind::Stmia => "stmia r"@ + d8 + "!, "@ + digits(n8, 2, 8),
        ThumbKind::Ldmia => "ldmia r"@ + d8 + "!, "@ + digits(n8, 2, 8),
        ThumbKind::BCond(c) => "b"@ + cond_mnemonic(c) + " 0x"@ + hex(bits16(sext8(inst) * 2 + 2)),
        ThumbKind::Swi => "swi 0x"@ + digits(n8, 16, 2),
        ThumbKind::Br => "b 0x"@ + hex(bits16(sext11(inst) * 2 + 2)),
        ThumbKind::SetLr => "mov lr, (pc + 0x"@ + hex(bits16((n11 * 4096) as int)) + ")"@,
        ThumbKind::Bl(true) => "bl lr + 0x"@ + hex(n11 * 2),
        ThumbKind::Bl(false) => "blx lr + 0x"@ + hex(n11 * 2),
        ThumbKind::Unknown => digits(inst as nat, 16, 4) + "??"@,
    }
}

fn thumb_alu_name_str(o: u16) -> (r: &'static str)
    ensures
        r@ == thumb_alu_name(o),
{
    match o {
        0x0 => "and",
        0x1 => "eor",
        0x2 => "lsl",
        0x3 => "lsr",
        0x4 => "asr",
        0x5 => "add",
        0x6 => "sub",
        0x7 => "ror",
        0x8 => "tst",
        0x9 => "neg",
        0xA => "cmp",
        0xB => "cmn",
        0xC => "orr",
        0xD => "mul",
        0xE => "bic",
        _ => "mvn",
    }
}

fn thumb_reg_transfer_str(o: u16) -> (r: &'static str)
    ensures
        r@ == thumb_reg_transfer_name(o),
{
    match o {
        0 => "str",
        1 => "strh",
        2 => "strb",
        3 => "ldsb",
        4 => "ldr",
        5 => "ldrh",
        6 => "ldrb",
        _ => "ldsh",
    }
}

fn thumb_imm_transfer_str(o: u16) -> (r: &'static str)
    ensures
        r@ == thumb_imm_transfer_name(o),
{
    match o {
        0 => "str",
        1 => "ldr",
        2 => "strb",
        _ => "ldrb",
    }
}

/// `v` as the bits of a signed 16-bit value.
fn bits16_exec(v: i32) -> (r: u32)
    requires
        -0x1_0000 < v < 0x1_0000,
    ensures
        r == bits16(v as int),
{
    if v < 0 {
        (v + 0x1_0000) as u32
    } else {
        v as u32
    }
}

/// Text made of `a`, the decimal `x`, `b` and the decimal `y`.
fn two_regs(a: &str, x: u16, b: &str, y: u16) -> (r: String)
    ensures
        r@ == a@ + dec(x as nat) + b@ + dec(y as nat),
{
    let mut s = String::from_str(a);
    push_digits(&mut s, x as u32, 10, 0);
    s.append(b);
    push_digits(&mut s, y as u32, 10, 0);
    s
}

/// Disassemble THUMB instruction `inst`.
pub fn get_mnemonic_thumb(inst: u16) -> (r: String)
    ensures
        r@ == thumb_mnemonic(inst),
{
    proof {
        lemma_mask_bounds();
    }
    let t = ThumbInst(inst);
    let d = t.low(0);
    let s = t.low(3);
    let d8 = t.low(8);
    let n5 = (inst >> 6) & 0x1F;
    let n3 = t.low(6);
    let n8 = (inst & 0xFF) as u32;
    let n11 = (inst & 0x7FF) as u32;
    let hs = (inst >> 3) & 0xF;
    let hd = (inst & 7) | (((inst >> 7) & 1) << 3);
    let kind = decode_thumb(inst);
    match kind {
        ThumbKind::Arith(arith) => {
            let op = match arith {
                ThumbArith::Lsl => "lsl r",
                ThumbArith::Lsr => "lsr r",
                ThumbArith::Asr => "asr r",
                ThumbArith::AddR => "add r",
                ThumbArith::SubR => "sub r",
                ThumbArith::AddI => "add r",
                ThumbArith::SubI => "sub r",
            };
            let mut r = two_regs(op, d, ", r", s);
            match arith {
                ThumbArith::Lsl | ThumbArith::Lsr | ThumbArith::Asr => {
                    r.append(", #0x");
                    push_digits(&mut r, n5 as u32, 16, 0);
                },
                ThumbArith::AddR | ThumbArith::SubR => {
                    r.append(", r");
                    push_digits(&mut r, n3 as u32, 10, 0);
                },
                _ => {
                    r.append(", #0x");
                    push_digits(&mut r, n3 as u32, 16, 0);
                },
            }
            r
        },
        ThumbKind::Imm(imm) => {
            let op = match imm {
                ThumbImmOp::Mov => "mov r",
                ThumbImmOp::Cmp => "cmp r",
                ThumbImmOp::Add => "add r",
                ThumbImmOp::Sub => "sub r",
            };
            let mut r = String::from_str(op);
            push_digits(&mut r, d8 as u32, 10, 0);
            r.append(", #");
            push_digits(&mut r, n8, 10, 0);
            r
        },
        ThumbKind::Alu => {
            let o = (inst >> 6) & 0xF;
            let mut r = String::from_str(thumb_alu_name_str(o));
            if o == 0x8 {
                r.append(" r");
                push_digits(&mut r, s as u32, 10, 0);
            } else {
                r.append(" r");
                push_digits(&mut r, d as u32, 10, 0);
                r.append(", r");
                push_digits(&mut r, s as u32, 10, 0);
            }
            r
        },
        ThumbKind::HiAdd => two_regs("add r", hd, ", r", hs),
        ThumbKind::HiCmp => two_regs("cmp r", hd, ", r", hs),
        ThumbKind::HiMov => two_regs("mov r", hd, ", r", hs),
        ThumbKind::HiBx => {
            let mut r = if inst & 0x80 != 0 {
                String::from_str("blx r")
            } else {
                String::from_str("bx r")
            };
            push_digits(&mut r, hs as u32, 10, 0);
            r
        },
        ThumbKind::LdrPc => {
            let mut r = String::from_str("ldr r");
            push_digits(&mut r, d8 as u32, 10, 0);
            r.append(", [PC, #0x");
            push_digits(&mut r, n8 * 4, 16, 0);
            r.append("]");
            r
        },
        ThumbKind::LdrStrReg(o) => {
            let mut r = String::from_str(thumb_reg_transfer_str(o));
            r.append(" r");
            push_digits(&mut r, d as u32, 10, 0);
            r.append(", [r");
            push_digits(&mut r, s as u32, 10, 0);
            r.append(", r");
            push_digits(&mut r, n3 as u32, 10, 0);
            r.append("]");
            r
        },
        ThumbKind::LdrStrImm(o) => {
            let mut r = String::from_str(thumb_imm_transfer_str(o));
            r.append(" r");
            push_digits(&mut r, d as u32, 10, 0);
            r.append(", [r");
            push_digits(&mut r, s as u32, 10, 0);
            r.append(", #0x");
            push_digits(&mut r, n5 as u32, 16, 0);
            r.append("]");
            r
        },
        ThumbKind::LdrStrHalf(store) => {
            let mut r = two_regs(if store { "strh r" } else { "ldrh r" }, d, ", [r", s);
            r.append(", #0x");
            push_digits(&mut r, n5 as u32 * 2, 16, 0);
            r.append("]");
            r
        },
        ThumbKind::StrSp | ThumbKind::LdrSp => {
            let mut r = if kind == ThumbKind::StrSp {
                String::from_str("str r")
            } else {
                String::from_str("ldr r")
            };
            push_digits(&mut r, d8 as u32, 10, 0);
            r.append(", [sp, #0x");
            push_digits(&mut r, n8 * 4, 16, 0);
            r.append("]");
            r
        },
        ThumbKind::RelAddr(from_sp) => {
            let mut r = String::from_str("add r");
            push_digits(&mut r, d8 as u32, 10, 0);
            r.append(if from_sp { ", sp, #0x" } else { ", pc, #0x" });
            push_digits(&mut r, n8 * 4, 16, 0);
            r
        },
        ThumbKind::SpOffs => {
            let mut r = if inst & 0x80 != 0 {
                String::from_str("add sp, #-0x")
            } else {
                String::from_str("add sp, #0x")
            };
            push_digits(&mut r, (inst & 0x7F) as u32 * 4, 16, 0);
            r
        },
        ThumbKind::Push(lr) => {
            let mut r = String::from_str("push ");
            push_digits(&mut r, n8, 2, 8);
            if lr {
                r.append(", lr");
            }
            r
        },
        ThumbKind::Pop(pc) => {
            let mut r = String::from_str("pop ");
            push_digits(&mut r, n8, 2, 8);
            if pc {
                r.append(", pc");
            }
            r
        },
        ThumbKind::Stmia | ThumbKind::Ldmia => {
            let mut r = if kind == ThumbKind::Stmia {
                String::from_str("stmia r")
            } else {
                String::from_str("ldmia r")
            };
            push_digits(&mut r, d8 as u32, 10, 0);
            r.append("!, ");
            push_digits(&mut r, n8, 2, 8);
            r
        },
        ThumbKind::BCond(c) => {
            let mut r = String::from_str("b");
            r.append(Cpu::condition_mnemonic(c));
            r.append(" 0x");
            let b = n8 as i32;
            let nn: i32 = if b >= 0x80 {
                b - 0x100
            } else {
                b
            };
            push_digits(&mut r, bits16_exec(nn * 2 + 2), 16, 0);
            r
        },
        ThumbKind::Swi => {
            let mut r = String::from_str("swi 0x");
            push_digits(&mut r, n8, 16, 2);
            r
        },
        ThumbKind::Br => {
            let mut r = String::from_str("b 0x");
            push_digits(&mut r, bits16_exec(sext11_exec(inst) * 2 + 2), 16, 0);
            r
        },
        ThumbKind::SetLr => {
            let mut r = String::from_str("mov lr, (pc + 0x");
            push_digits(&mut r, (n11 * 0x1000) % 0x1_0000, 16, 0);
            r.append(")");
            r
        },
        ThumbKind::Bl(thumb) => {
            let mut r = if thumb {
                String::from_str("bl lr + 0x")
            } else {
                String::from_str("blx lr + 0x")
            };
            push_digits(&mut r, n11 * 2, 16, 0);
            r
        },
        ThumbKind::Unknown => {
            let mut r = String::new();
            push_digits(&mut r, inst as u32, 16, 4);
            r.append("??");
            proof {
                assert(r@ =~= digits(inst as nat, 16, 4) + "??"@);
            }
            r
        },
    }
}

} // verus!

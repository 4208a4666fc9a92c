//! The PSX's CPU: registers with the load delay slot, COP0's exception
//! state, and the instructions that only touch the CPU.
use vstd::prelude::*;
use crate::gga::alu::asr_val;
use crate::bits::{lemma_bitwise, lemma_shift_round_trips};
use crate::psx::inst::{sign_extend16, Inst};

verus! {

/// The low bits of an address, taken by mask, are its remainder.
proof fn lemma_low_bits(addr: u32)
    by (bit_vector)
    ensures
        addr & 0 == addr % 1,
        addr & 1 == addr % 2,
        addr & 3 == addr % 4,
{
}

/// COP0 registers.
#[derive(Copy, Clone, Default)]
pub struct Cop0 {
    pub sr: u32,
    pub cause: u32,
    pub epc: u32,
}

/// A load that completes after the next instruction.
#[derive(Copy, Clone, Default)]
pub struct PendingLoad {
    pub reg: u32,
    pub value: u32,
}

/// Exceptions the CPU raises.
#[derive(Copy, Clone, PartialEq, Eq, Structural, Debug)]
pub enum Exception {
    UnalignedLoad,
    UnalignedStore,
    Syscall,
    Break,
    UnknownOpcode,
    CopError,
    Overflow,
}

/// Exception code in the cause register.
pub open spec fn exception_code(e: Exception) -> u32 {
    match e {
        Exception::UnalignedLoad => 0x4,
        Exception::UnalignedStore => 0x5,
        Exception::Syscall => 0x8,
        Exception::Break => 0x9,
        Exception::UnknownOpcode => 0xA,
        Exception::CopError => 0xB,
        Exception::Overflow => 0xC,
    }
}

impl Exception {
    /// Exception code in the cause register.
    pub fn code(self) -> (r: u32)
        ensures
            r == exception_code(self),
    {
        match self {
            Exception::UnalignedLoad => 0x4,
            Exception::UnalignedStore => 0x5,
            Exception::Syscall => 0x8,
            Exception::Break => 0x9,
            Exception::UnknownOpcode => 0xA,
            Exception::CopError => 0xB,
            Exception::Overflow => 0xC,
        }
    }
}

/// Status register after entering an exception: the 3-level mode and
/// interrupt enable stack in bits 0-5 is pushed by 2 bits.
pub open spec fn sr_pushed(sr: u32) -> u32 {
    (sr & !0x3Fu32) | (((sr & 0x3F) << 2u32) & 0x3F)
}

/// Status register after RFE: the stack in bits 0-5 is popped by 2 bits.
pub open spec fn sr_popped(sr: u32) -> u32 {
    (sr & !0x3Fu32) | ((sr & 0x3F) >> 2u32)
}

/// RFE undoes what entering an exception does to the status register's
/// mode and interrupt enable stack: popping after a push gives the
/// register back but for the oldest entry (bits 4-5), which is cleared;
/// pushing after a pop gives it back but for the current entry (bits
/// 0-1), which is cleared.
pub proof fn lemma_sr_push_pop(sr: u32)
    ensures
        sr_popped(sr_pushed(sr)) == sr & !0x30u32,
        sr_pushed(sr_popped(sr)) == sr & !0x3u32,
{
    lemma_shift_round_trips(sr, 1);
}

/// Operations of the unsigned ALU instructions.
#[derive(Copy, Clone, PartialEq, Eq, Structural, Debug)]
pub enum UnsignedOp {
    Add,
    Sub,
    And,
    Or,
    Xor,
    Lui,
    Slt,
    Nor,
}

/// Operations of the signed ALU instructions.
#[derive(Copy, Clone, PartialEq, Eq, Structural, Debug)]
pub enum SignedOp {
    AddU,
    SubU,
    Add,
    Sub,
    Slt,
}

/// Shift operations.
#[derive(Copy, Clone, PartialEq, Eq, Structural, Debug)]
pub enum ShiftOp {
    Sll,
    Srl,
    Sra,
}

/// Result of an unsigned ALU operation.
pub open spec fn unsigned_result(op: UnsignedOp, a: u32, b: u32) -> u32 {
    match op {
        UnsignedOp::Add => ((a + b) % 0x1_0000_0000) as u32,
        UnsignedOp::Sub => (if a >= b { a - b } else { a - b + 0x1_0000_0000 }) as u32,
        UnsignedOp::And => a & b,
        UnsignedOp::Or => a | b,
        UnsignedOp::Xor => a ^ b,
        UnsignedOp::Lui => b << 16u32,
        UnsignedOp::Slt => if a < b { 1 } else { 0 },
        UnsignedOp::Nor => !(a | b),
    }
}

/// What each unsigned ALU operation gives, in terms of its operands: ADD
/// sums them modulo 2^32, SUB leaves what, added back to `b`, gives `a`;
/// AND keeps the bits set in both, OR every bit set in either, XOR undoes
/// itself, NOR sets exactly the bits clear in both; LUI puts the low half
/// of `b` in the high half and clears the low half; SLT gives 1 when `a`
/// is below `b`, else 0.
pub proof fn lemma_unsigned_results(a: u32, b: u32)
    ensures
        unsigned_result(UnsignedOp::Add, a, b) as int == (a + b) % 0x1_0000_0000,
        (unsigned_result(UnsignedOp::Sub, a, b) + b) % 0x1_0000_0000 == a,
        unsigned_result(UnsignedOp::And, a, b) & !a == 0,
        unsigned_result(UnsignedOp::And, a, b) & !b == 0,
        (unsigned_result(UnsignedOp::And, a, b) | !a | !b) == 0xFFFF_FFFF,
        unsigned_result(UnsignedOp::Or, a, b) & a == a,
        unsigned_result(UnsignedOp::Or, a, b) & b == b,
        (unsigned_result(UnsignedOp::Or, a, b) & !a) & !b == 0,
        unsigned_result(UnsignedOp::Xor, a, b) ^ b == a,
        unsigned_result(UnsignedOp::Nor, a, b) & (a | b) == 0,
        (unsigned_result(UnsignedOp::Nor, a, b) | a | b) == 0xFFFF_FFFF,
        unsigned_result(UnsignedOp::Lui, a, b) >> 16u32 == b & 0xFFFF,
        unsigned_result(UnsignedOp::Lui, a, b) & 0xFFFF == 0,
        unsigned_result(UnsignedOp::Slt, a, b) == 1 <==> a < b,
        unsigned_result(UnsignedOp::Slt, a, b) <= 1,
{
    lemma_bitwise(a, b);
}

/// An i32 result wrapped into range.
pub open spec fn wrap_i32(v: int) -> i32 {
    (if v > i32::MAX { v - 0x1_0000_0000 } else if v < i32::MIN { v + 0x1_0000_0000 } else { v }) as i32
}

/// Result of a signed ALU operation, or `None` on overflow.
pub open spec fn signed_result(op: SignedOp, a: i32, b: i32) -> Option<i32> {
    match op {
        SignedOp::AddU => Some(wrap_i32(a + b)),
        SignedOp::SubU => Some(wrap_i32(a - b)),
        SignedOp::Add => if i32::MIN <= a + b <= i32::MAX { Some((a + b) as i32) } else { None },
        SignedOp::Sub => if i32::MIN <= a - b <= i32::MAX { Some((a - b) as i32) } else { None },
        SignedOp::Slt => Some(if a < b { 1i32 } else { 0i32 }),
    }
}

/// LO and HI after a multiplication or division of `a` by `b`.
/// The operands are taken as they are, zero-extended to 64 bits, for the
/// signed forms as well.
pub open spec fn muldiv_result(div: bool, sign: bool, a: u32, b: u32) -> (u32, u32) {
    if !div {
        let p = a as nat * b as nat;
        ((p % 0x1_0000_0000) as u32, (p / 0x1_0000_0000) as u32)
    } else if b == 0 {
        if sign && a >= 0x8000_0000 {
            (u32::MAX, a)
        } else if sign {
            (1, a)
        } else {
            (u32::MAX, a)
        }
    } else if sign && a == 0x8000_0000 && b == u32::MAX {
        (a, 0)
    } else {
        (a / b, a % b)
    }
}

/// What each signed ALU operation gives: ADDU and SUBU the sum and the
/// difference modulo 2^32, never failing; ADD and SUB the exact sum and
/// difference, failing exactly when it does not fit in 32 signed bits;
/// SLT 1 when `a` is below `b` as signed numbers, else 0.
pub proof fn lemma_signed_results(a: i32, b: i32)
    ensures
        signed_result(SignedOp::AddU, a, b) is Some,
        (signed_result(SignedOp::AddU, a, b).unwrap() - a - b) % 0x1_0000_0000 == 0,
        signed_result(SignedOp::SubU, a, b) is Some,
        (signed_result(SignedOp::SubU, a, b).unwrap() + b - a) % 0x1_0000_0000 == 0,
        signed_result(SignedOp::Add, a, b) is Some <==> i32::MIN <= a + b <= i32::MAX,
        signed_result(SignedOp::Add, a, b) is Some ==> signed_result(SignedOp::Add, a, b).unwrap()
            == a + b,
        signed_result(SignedOp::Sub, a, b) is Some <==> i32::MIN <= a - b <= i32::MAX,
        signed_result(SignedOp::Sub, a, b) is Some ==> signed_result(SignedOp::Sub, a, b).unwrap()
            + b == a,
        signed_result(SignedOp::Slt, a, b) == Some(if a < b { 1i32 } else { 0i32 }),
{
}

/// Multiplication leaves the 64-bit product in HI and LO. Division by a
/// non-zero divisor leaves the quotient in LO and the remainder, below
/// the divisor, in HI (one signed case aside, whose quotient does not fit);
/// division by zero leaves the dividend in HI.
pub proof fn lemma_muldiv_results(sign: bool, a: u32, b: u32)
    ensures
        muldiv_result(false, sign, a, b).0 + muldiv_result(false, sign, a, b).1 * 0x1_0000_0000
            == a * b,
        b != 0 && !(sign && a == 0x8000_0000 && b == u32::MAX) ==> muldiv_result(true, sign, a, b).0
            * b + muldiv_result(true, sign, a, b).1 == a && muldiv_result(true, sign, a, b).1 < b,
        b == 0 ==> muldiv_result(true, sign, a, b).1 == a,
{
    let p = a as nat * b as nat;
    assert(p < 0x1_0000_0000 * 0x1_0000_0000) by (nonlinear_arith)
        requires
            a < 0x1_0000_0000,
            b < 0x1_0000_0000,
            p == a as nat * b as nat,
    ;
    assert(p / 0x1_0000_0000 < 0x1_0000_0000);
    if b != 0 {
        assert(a == (a / b) * b + a % b) by (nonlinear_arith)
            requires
                b != 0,
        ;
        assert(a % b < b) by (nonlinear_arith)
            requires
                b != 0,
        ;
        assert(a / b <= a) by (nonlinear_arith)
            requires
                b != 0,
        ;
    }
}

/// The PSX CPU.
pub struct Cpu {
    pub regs: [u32; 32],
    pub next_regs: [u32; 32],
    pub pending_load: PendingLoad,
    pub pc: u32,
    pub next_pc: u32,
    pub inst_pc: u32,
    pub pipeline: u32,
    pub is_branch: bool,
    pub is_delay: bool,
    pub cop0: Cop0,
    pub hi: u32,
    pub lo: u32,
}

/// State after raising exception `kind` from `c`.
pub open spec fn after_exception(c: Cpu, kind: Exception) -> Cpu {
    let new_pc: u32 = if (c.cop0.sr >> 22u32) & 1 == 1 { 0xBFC0_0180 } else { 0x8000_0080 };
    let cause = exception_code(kind) * 4;
    Cpu {
        cop0: Cop0 {
            sr: sr_pushed(c.cop0.sr),
            cause: if c.is_delay { (cause + 0x8000_0000) as u32 } else { cause as u32 },
            epc: if c.is_delay {
                (if c.inst_pc >= 4 { c.inst_pc - 4 } else { c.inst_pc + 0x1_0000_0000 - 4 }) as u32
            } else {
                c.inst_pc
            },
        },
        pc: (new_pc + 4) as u32,
        ..c
    }
}

/// State after jumping to `value`: the branch target is taken after the
/// delay slot; an unaligned target raises an exception.
pub open spec fn after_jump(c: Cpu, value: u32) -> Cpu {
    let j = Cpu { next_pc: value, is_branch: true, ..c };
    if value % 4 != 0 {
        after_exception(j, Exception::UnalignedLoad)
    } else {
        j
    }
}

/// Target of a branch with the given offset (in words) from the PC.
pub open spec fn branch_target(pc: u32, imm: i32) -> u32 {
    let t = pc + imm * 4 - 4;
    (if t < 0 { t + 0x1_0000_0000 } else if t >= 0x1_0000_0000 { t - 0x1_0000_0000 } else { t }) as u32
}

impl Cpu {
    /// Register 0 reads as zero.
    pub open spec fn wf(&self) -> bool {
        self.regs[0] == 0
    }

    /// The reset state.
    pub fn new() -> (c: Self)
        ensures
            c.wf(),
            c.pc == 0xBFC0_0000 && c.next_pc == 0xBFC0_0004 && c.inst_pc == 0xBFC0_0000,
            !c.is_branch && !c.is_delay,
            c.cop0.sr == 0 && c.hi == 0 && c.lo == 0,
    {
        Cpu {
            regs: [0; 32],
            next_regs: [0; 32],
            pending_load: PendingLoad { reg: 0, value: 0 },
            pc: 0xBFC0_0000,
            next_pc: 0xBFC0_0004,
            inst_pc: 0xBFC0_0000,
            pipeline: 0,
            is_branch: false,
            is_delay: false,
            cop0: Cop0 { sr: 0, cause: 0, epc: 0 },
            hi: 0,
            lo: 0,
        }
    }

    /// Read a register.
    pub fn reg(&self, idx: u32) -> (r: u32)
        requires
            idx < 32,
        ensures
            r == self.regs[idx as int],
    {
        self.regs[idx as usize]
    }

    /// Write a register; the write becomes visible after the instruction.
    pub fn set_reg(&mut self, idx: u32, value: u32)
        requires
            idx < 32,
        ensures
            *final(self) == (Cpu { next_regs: final(self).next_regs, ..*old(self) }),
            final(self).next_regs@ == old(self).next_regs@.update(idx as int, value),
    {
        self.next_regs[idx as usize] = value;
    }

    /// Start the next instruction: complete the pending load, advance the
    /// PC through the delay slot. Returns the address to fetch from.
    pub fn start_instruction(&mut self) -> (fetch: u32)
        requires
            old(self).pending_load.reg < 32,
        ensures
            fetch == old(self).pc,
            final(self).next_regs@ == old(self).next_regs@.update(
                old(self).pending_load.reg as int,
                old(self).pending_load.value,
            ),
            final(self).pending_load.reg == 0 && final(self).pending_load.value == 0,
            final(self).is_delay == old(self).is_branch,
            final(self).is_branch,
            final(self).inst_pc == old(self).pc,
            final(self).pc == old(self).next_pc,
            final(self).next_pc == (old(self).next_pc + 4) % 0x1_0000_0000,
            final(self).regs == old(self).regs,
            final(self).cop0 == old(self).cop0,
            final(self).hi == old(self).hi && final(self).lo == old(self).lo,
    {
        self.set_reg(self.pending_load.reg, self.pending_load.value);
        self.pending_load = PendingLoad { reg: 0, value: 0 };

        self.is_delay = self.is_branch;
        self.is_branch = true;

        let fetch = self.pc;
        self.inst_pc = self.pc;
        self.pc = self.next_pc;
        self.next_pc = self.next_pc.wrapping_add(4);
        fetch
    }

    /// Finish an instruction: its register writes become visible, except to
    /// register 0.
    pub fn finish_instruction(&mut self)
        requires
            old(self).wf(),
        ensures
            final(self).wf(),
            forall|i: int| 1 <= i < 32 ==> final(self).regs[i] == old(self).next_regs[i],
            *final(self) == (Cpu { regs: final(self).regs, ..*old(self) }),
    {
        // Do not overwrite zero register
        let mut i: usize = 1;
        while i < 32
            invariant
                1 <= i <= 32,
                self.regs[0] == 0,
                forall|j: int| 1 <= j < i ==> self.regs[j] == old(self).next_regs[j],
                *self == (Cpu { regs: self.regs, ..*old(self) }),
            decreases 32 - i,
        {
            self.regs[i] = self.next_regs[i];
            i = i + 1;
        }
    }

    /// Raise an exception: push the mode stack, record cause and return
    /// address, and jump to the handler.
    pub fn exception_occurred(&mut self, kind: Exception)
        ensures
            *final(self) == after_exception(*old(self), kind),
    {
        let new_pc: u32 = if (self.cop0.sr >> 22) & 1 == 1 {
            0xBFC0_0180
        } else {
            0x8000_0080
        };

        let context = self.cop0.sr & 0x3F;
        self.cop0.sr = self.cop0.sr & !0x3F;
        self.cop0.sr = self.cop0.sr | ((context << 2) & 0x3F);
        let cause: u32 = kind.code() * 4;
        self.cop0.cause = cause;

        if self.is_delay {
            self.cop0.epc = self.inst_pc.wrapping_sub(4);
            self.cop0.cause = self.cop0.cause | 0x8000_0000;
            proof {
                assert(cause | 0x8000_0000u32 == cause + 0x8000_0000) by (bit_vector)
                    requires
                        cause <= 0x30,
                ;
            }
        } else {
            self.cop0.epc = self.inst_pc;
        }

        self.pc = new_pc + 4;
    }

    /// Raise an exception if `addr` is not aligned to `by`, a power of two.
    /// Returns if it was raised.
    pub fn ensure_aligned(&mut self, addr: u32, by: u32, exception: Exception) -> (raised: bool)
        requires
            by == 1 || by == 2 || by == 4,
        ensures
            raised == (addr % by != 0),
            raised ==> *final(self) == after_exception(*old(self), exception),
            !raised ==> *final(self) == *old(self),
    {
        proof {
            lemma_low_bits(addr);
        }
        if addr & (by - 1) != 0 {
            self.exception_occurred(exception);
            true
        } else {
            false
        }
    }

    /// Set the branch target, taken after the delay slot.
    pub fn jump_pc(&mut self, value: u32)
        ensures
            *final(self) == after_jump(*old(self), value),
    {
        self.next_pc = value;
        self.is_branch = true;
        // One too early, oh well
        self.ensure_aligned(self.next_pc, 4, Exception::UnalignedLoad);
    }

    /// Branch by a signed offset in words, relative to the delay slot.
    pub fn branch(&mut self, imm: i32)
        requires
            -0x8000 <= imm < 0x8000,
        ensures
            *final(self) == after_jump(*old(self), branch_target(old(self).pc, imm)),
    {
        // Always word-aligned
        let offs = imm * 4;
        // Account for Pc increment after instruction
        self.jump_pc(self.pc.wrapping_add_signed(offs).wrapping_sub(4));
    }

    /// If the cache is isolated (SR bit 16): loads and stores then do not
    /// reach memory.
    pub fn cache_isolated(&self) -> (r: bool)
        ensures
            r == ((self.cop0.sr >> 16u32) & 1 == 1),
    {
        (self.cop0.sr >> 16) & 1 == 1
    }

    /// Address of a load or store: base register plus signed offset.
    pub fn addr_with_imm(&self, inst: Inst) -> (r: u32)
        ensures
            r == ({
                let t = self.regs[((inst.0 >> 21u32) & 0x1F) as int] + sign_extend16(inst.0 & 0xFFFF);
                if t < 0 { t + 0x1_0000_0000 } else if t >= 0x1_0000_0000 { t - 0x1_0000_0000 } else { t }
            }),
    {
        self.reg(inst.rs()).wrapping_add_signed(inst.imm16s())
    }

    /// ALU operation with unsigned operands: rs and the zero-extended
    /// immediate (or rt), into rt.
    pub fn math_unsigned(&mut self, inst: Inst, imm: bool, op: UnsignedOp)
        ensures
            ({
                let a = old(self).regs[((inst.0 >> 21u32) & 0x1F) as int];
                let b = if imm { inst.0 & 0xFFFF } else { old(self).regs[((inst.0 >> 16u32) & 0x1F) as int] };
                &&& *final(self) == (Cpu { next_regs: final(self).next_regs, ..*old(self) })
                &&& final(self).next_regs@ == old(self).next_regs@.update(
                    ((inst.0 >> 16u32) & 0x1F) as int,
                    unsigned_result(op, a, b),
                )
            }),
    {
        let a = self.reg(inst.rs());
        let b = if imm {
            inst.imm16()
        } else {
            self.reg(inst.rt())
        };

        let value = match op {
            UnsignedOp::Add => a.wrapping_add(b),
            UnsignedOp::Sub => a.wrapping_sub(b),
            UnsignedOp::And => a & b,
            UnsignedOp::Or => a | b,
            UnsignedOp::Xor => a ^ b,
            UnsignedOp::Lui => b << 16,
            UnsignedOp::Slt => if a < b {
                1
            } else {
                0
            },
            UnsignedOp::Nor => {
                proof {
                    assert(u32::MAX ^ (a | b) == !(a | b)) by (bit_vector);
                }
                u32::MAX ^ (a | b)
            },
        };

        self.set_reg(inst.rt(), value);
    }

    /// ALU operation with signed operands: rs and the sign-extended
    /// immediate (or rt), into rt. ADD and SUB raise an exception on
    /// overflow instead of writing.
    pub fn math_signed(&mut self, inst: Inst, imm: bool, op: SignedOp)
        ensures
            ({
                let a = old(self).regs[((inst.0 >> 21u32) & 0x1F) as int] as i32;
                let b = if imm {
                    sign_extend16(inst.0 & 0xFFFF)
                } else {
                    old(self).regs[((inst.0 >> 16u32) & 0x1F) as int] as i32
                };
                match signed_result(op, a, b) {
                    Some(v) => {
                        &&& *final(self) == (Cpu { next_regs: final(self).next_regs, ..*old(self) })
                        &&& final(self).next_regs@ == old(self).next_regs@.update(
                            ((inst.0 >> 16u32) & 0x1F) as int,
                            v as u32,
                        )
                    },
                    None => *final(self) == after_exception(*old(self), Exception::Overflow),
                }
            }),
    {
        let a = self.reg(inst.rs()) as i32;
        let b = if imm {
            inst.imm16s()
        } else {
            self.reg(inst.rt()) as i32
        };

        let value = match op {
            SignedOp::AddU => a.wrapping_add(b),
            SignedOp::SubU => a.wrapping_sub(b),
            SignedOp::Add => match a.checked_add(b) {
                Some(value) => value,
                None => {
                    self.exception_occurred(Exception::Overflow);
                    return ;
                },
            },
            SignedOp::Sub => match a.checked_sub(b) {
                Some(value) => value,
                None => {
                    self.exception_occurred(Exception::Overflow);
                    return ;
                },
            },
            SignedOp::Slt => if a < b {
                1
            } else {
                0
            },
        };

        self.set_reg(inst.rt(), value as u32);
    }

    /// Shift rt by the immediate (or rs), into rd.
    pub fn shift(&mut self, inst: Inst, imm: bool, op: ShiftOp)
        ensures
            ({
                let a = old(self).regs[((inst.0 >> 16u32) & 0x1F) as int];
                let b = if imm {
                    (inst.0 >> 6u32) & 0x1F
                } else {
                    old(self).regs[((inst.0 >> 21u32) & 0x1F) as int] & 0x1F
                };
                let v = match op {
                    ShiftOp::Sll => a << b,
                    ShiftOp::Srl => a >> b,
                    ShiftOp::Sra => asr_val(a, b),
                };
                &&& *final(self) == (Cpu { next_regs: final(self).next_regs, ..*old(self) })
                &&& final(self).next_regs@ == old(self).next_regs@.update(
                    ((inst.0 >> 11u32) & 0x1F) as int,
                    v,
                )
            }),
    {
        proof {
            crate::bits::lemma_mask_bounds();
        }
        let a = self.reg(inst.rt());
        let b = if imm {
            inst.imm5()
        } else {
            self.reg(inst.rs()) & 0x1F
        };

        let value = match op {
            ShiftOp::Sll => a << b,
            ShiftOp::Srl => a >> b,
            ShiftOp::Sra => {
                if (a >> 31) & 1 == 1 {
                    !((!a) >> b)
                } else {
                    a >> b
                }
            },
        };

        self.set_reg(inst.rd(), value);
    }

    /// Jump to the address in rs.
    pub fn jr(&mut self, inst: Inst)
        ensures
            *final(self) == (Cpu { pc: old(self).regs[((inst.0 >> 21u32) & 0x1F) as int], ..*old(self) }),
    {
        self.pc = self.reg(inst.rs());
    }

    /// Jump to the address in rs, linking into rd.
    pub fn jalr(&mut self, inst: Inst)
        ensures
            *final(self) == (Cpu {
                pc: old(self).regs[((inst.0 >> 21u32) & 0x1F) as int],
                next_regs: final(self).next_regs,
                ..*old(self)
            }),
            final(self).next_regs@ == old(self).next_regs@.update(((inst.0 >> 11u32) & 0x1F) as int, old(self).pc),
    {
        self.set_reg(inst.rd(), self.pc);
        self.pc = self.reg(inst.rs());
    }

    /// Move from or to HI/LO.
    pub fn lohi_mov(&mut self, inst: Inst, to_reg: bool, hi: bool)
        ensures
            to_reg ==> *final(self) == (Cpu { next_regs: final(self).next_regs, ..*old(self) })
                && final(self).next_regs@ == old(self).next_regs@.update(
                ((inst.0 >> 11u32) & 0x1F) as int,
                if hi { old(self).hi } else { old(self).lo },
            ),
            !to_reg && hi ==> *final(self) == (Cpu { hi: old(self).regs[((inst.0 >> 21u32) & 0x1F) as int], ..*old(self) }),
            !to_reg && !hi ==> *final(self) == (Cpu { lo: old(self).regs[((inst.0 >> 21u32) & 0x1F) as int], ..*old(self) }),
    {
        if to_reg && hi {
            self.set_reg(inst.rd(), self.hi);
        } else if to_reg {
            self.set_reg(inst.rd(), self.lo);
        } else if hi {
            self.hi = self.reg(inst.rs());
        } else {
            self.lo = self.reg(inst.rs());
        }
    }

    /// Multiply or divide rs by rt into LO and HI.
    pub fn muldiv(&mut self, inst: Inst, div: bool, sign: bool)
        ensures
            ({
                let a = old(self).regs[((inst.0 >> 21u32) & 0x1F) as int];
                let b = old(self).regs[((inst.0 >> 16u32) & 0x1F) as int];
                let (lo, hi) = muldiv_result(div, sign, a, b);
                *final(self) == (Cpu { lo, hi, ..*old(self) })
            }),
    {
        let a = self.reg(inst.rs()) as u64;
        let b = self.reg(inst.rt()) as u64;

        let (lo, hi) = if !div {
            proof {
                assert(a * b <= 0xFFFF_FFFF * 0xFFFF_FFFF) by (nonlinear_arith)
                    requires
                        a <= 0xFFFF_FFFF,
                        b <= 0xFFFF_FFFF,
                ;
            }
            let res = a * b;
            ((res % 0x1_0000_0000) as u32, (res / 0x1_0000_0000) as u32)
        } else if b == 0 {
            if sign && a >= 0x8000_0000 {
                (u32::MAX, a as u32)
            } else if sign {
                (1, a as u32)
            } else {
                (u32::MAX, a as u32)
            }
        } else if sign && a == 0x8000_0000 && b == 0xFFFF_FFFF {
            (a as u32, 0)
        } else {
            ((a / b) as u32, (a % b) as u32)
        };
        self.lo = lo;
        self.hi = hi;
    }

    /// BLTZ, BGEZ, BLTZAL, BGEZAL: branch on the sign of rs, maybe linking.
    pub fn bcondz(&mut self, inst: Inst)
        ensures
            ({
                let is_ge = (inst.0 >> 16u32) & 1 == 1;
                let link = (inst.0 >> 17u32) & 0xF == 0x8;
                let cond = ((old(self).regs[((inst.0 >> 21u32) & 0x1F) as int] as i32) < 0) != is_ge;
                &&& link ==> final(self).next_regs@ == old(self).next_regs@.update(31, old(self).pc)
                &&& !link ==> final(self).next_regs == old(self).next_regs
                &&& cond ==> *final(self) == (Cpu {
                    next_regs: final(self).next_regs,
                    ..after_jump(*old(self), branch_target(old(self).pc, sign_extend16(inst.0 & 0xFFFF)))
                })
                &&& !cond ==> *final(self) == (Cpu { next_regs: final(self).next_regs, ..*old(self) })
            }),
    {
        let is_ge = (inst.0 >> 16) & 1 == 1;
        let link = (inst.0 >> 17) & 0xF == 0x8;

        let cond = (self.reg(inst.rs()) as i32) < 0;
        let cond = cond != is_ge;

        if link {
            self.set_reg(31, self.pc);
        }
        if cond {
            self.branch(inst.imm16s());
        }
    }

    /// Jump within the current 256 MiB region.
    pub fn j(&mut self, inst: Inst)
        ensures
            *final(self) == after_jump(*old(self), (old(self).pc & 0xF000_0000) | ((inst.0 & 0x3FF_FFFF) << 2u32)),
    {
        let pc = (self.pc & 0xF000_0000) | (inst.imm26() << 2);
        self.jump_pc(pc);
    }

    /// Jump and link into register 31.
    pub fn jal(&mut self, inst: Inst)
        ensures
            *final(self) == (Cpu {
                next_regs: final(self).next_regs,
                ..after_jump(*old(self), (old(self).pc & 0xF000_0000) | ((inst.0 & 0x3FF_FFFF) << 2u32))
            }),
            final(self).next_regs@ == old(self).next_regs@.update(31, old(self).pc),
    {
        self.set_reg(31, self.pc);
        self.j(inst);
    }

    /// Branch if rs equals rt.
    pub fn beq(&mut self, inst: Inst)
        ensures
            ({
                let taken = old(self).regs[((inst.0 >> 21u32) & 0x1F) as int] == old(self).regs[((inst.0 >> 16u32) & 0x1F) as int];
                &&& taken ==> *final(self) == after_jump(*old(self), branch_target(old(self).pc, sign_extend16(inst.0 & 0xFFFF)))
                &&& !taken ==> *final(self) == *old(self)
            }),
    {
        if self.reg(inst.rs()) == self.reg(inst.rt()) {
            self.branch(inst.imm16s());
        }
    }

    /// Branch if rs differs from rt.
    pub fn bne(&mut self, inst: Inst)
        ensures
            ({
                let taken = old(self).regs[((inst.0 >> 21u32) & 0x1F) as int] != old(self).regs[((inst.0 >> 16u32) & 0x1F) as int];
                &&& taken ==> *final(self) == after_jump(*old(self), branch_target(old(self).pc, sign_extend16(inst.0 & 0xFFFF)))
                &&& !taken ==> *final(self) == *old(self)
            }),
    {
        if self.reg(inst.rs()) != self.reg(inst.rt()) {
            self.branch(inst.imm16s());
        }
    }

    /// Branch if rs is zero or negative.
    pub fn blez(&mut self, inst: Inst)
        ensures
            ({
                let taken = (old(self).regs[((inst.0 >> 21u32) & 0x1F) as int] as i32) <= 0;
                &&& taken ==> *final(self) == after_jump(*old(self), branch_target(old(self).pc, sign_extend16(inst.0 & 0xFFFF)))
                &&& !taken ==> *final(self) == *old(self)
            }),
    {
        if (self.reg(inst.rs()) as i32) <= 0 {
            self.branch(inst.imm16s());
        }
    }

    /// Branch if rs is positive.
    pub fn bgtz(&mut self, inst: Inst)
        ensures
            ({
                let taken = (old(self).regs[((inst.0 >> 21u32) & 0x1F) as int] as i32) > 0;
                &&& taken ==> *final(self) == after_jump(*old(self), branch_target(old(self).pc, sign_extend16(inst.0 & 0xFFFF)))
                &&& !taken ==> *final(self) == *old(self)
            }),
    {
        if self.reg(inst.rs()) as i32 > 0 {
            self.branch(inst.imm16s());
        }
    }

    /// Return from exception: pop the mode stack.
    pub fn rfe(&mut self, inst: Inst)
        ensures
            *final(self) == (Cpu { cop0: Cop0 { sr: sr_popped(old(self).cop0.sr), ..old(self).cop0 }, ..*old(self) }),
    {
        let context = self.cop0.sr & 0x3F;
        self.cop0.sr = self.cop0.sr & !0x3F;
        self.cop0.sr = self.cop0.sr | (context >> 2);
    }

    /// Move from a COP0 register (SR, CAUSE or EPC) into rt. Reads of other
    /// registers are ignored.
    pub fn mfc0(&mut self, inst: Inst)
        ensures
            ({
                let rd = (inst.0 >> 11u32) & 0x1F;
                let rt = ((inst.0 >> 16u32) & 0x1F) as int;
                &&& rd == 12 ==> final(self).next_regs@ == old(self).next_regs@.update(rt, old(self).cop0.sr)
                &&& rd == 13 ==> final(self).next_regs@ == old(self).next_regs@.update(rt, old(self).cop0.cause)
                &&& rd == 14 ==> final(self).next_regs@ == old(self).next_regs@.update(rt, old(self).cop0.epc)
                &&& !(12 <= rd <= 14) ==> final(self).next_regs == old(self).next_regs
                &&& *final(self) == (Cpu { next_regs: final(self).next_regs, ..*old(self) })
            }),
    {
        let rd = inst.rd();
        if rd == 12 {
            self.set_reg(inst.rt(), self.cop0.sr);
        } else if rd == 13 {
            self.set_reg(inst.rt(), self.cop0.cause);
        } else if rd == 14 {
            self.set_reg(inst.rt(), self.cop0.epc);
        }
    }

    /// Move rt into a COP0 register; only SR is writable.
    pub fn mtc0(&mut self, inst: Inst)
        ensures
            ((inst.0 >> 11u32) & 0x1F) == 12 ==> *final(self) == (Cpu {
                cop0: Cop0 { sr: old(self).regs[((inst.0 >> 16u32) & 0x1F) as int], ..old(self).cop0 },
                ..*old(self)
            }),
            ((inst.0 >> 11u32) & 0x1F) != 12 ==> *final(self) == *old(self),
    {
        if inst.rd() == 12 {
            self.cop0.sr = self.reg(inst.rt());
        }
    }

    /// LWR: merge the bytes of the aligned word from memory into rt, from
    /// the addressed byte to the end of the word. The result becomes a
    /// pending load.
    pub fn lwr(&mut self, inst: Inst, mem_aligned: u32)
        ensures
            ({
                let addr = old(self).addr_with_imm_spec(inst);
                let value = old(self).next_regs[((inst.0 >> 16u32) & 0x1F) as int];
                let v = if addr % 4 == 0 {
                    mem_aligned
                } else if addr % 4 == 1 {
                    (value & 0xFF00_0000) | (mem_aligned >> 8u32)
                } else if addr % 4 == 2 {
                    (value & 0xFFFF_0000) | (mem_aligned >> 16u32)
                } else {
                    (value & 0xFFFF_FF00) | (mem_aligned >> 24u32)
                };
                *final(self) == (Cpu {
                    pending_load: PendingLoad { reg: (inst.0 >> 16u32) & 0x1F, value: v },
                    ..*old(self)
                })
            }),
    {
        let addr = self.addr_with_imm(inst);
        let value = self.next_regs[inst.rt() as usize];
        proof {
            lemma_low_bits(addr);
        }
        let v = match addr & 3 {
            0 => mem_aligned,
            1 => (value & 0xFF00_0000) | (mem_aligned >> 8),
            2 => (value & 0xFFFF_0000) | (mem_aligned >> 16),
            _ => (value & 0xFFFF_FF00) | (mem_aligned >> 24),
        };
        self.pending_load = PendingLoad { reg: inst.rt(), value: v };
    }

    /// LWL: merge the aligned word from memory into rt, up to the addressed
    /// byte. The result becomes a pending load.
    pub fn lwl(&mut self, inst: Inst, mem_aligned: u32)
        ensures
            ({
                let addr = old(self).addr_with_imm_spec(inst);
                let value = old(self).next_regs[((inst.0 >> 16u32) & 0x1F) as int];
                let v = if addr % 4 == 0 {
                    (value & 0x00FF_FFFF) | (mem_aligned << 24u32)
                } else if addr % 4 == 1 {
                    (value & 0x0000_FFFF) | (mem_aligned << 16u32)
                } else if addr % 4 == 2 {
                    (value & 0x0000_00FF) | (mem_aligned << 8u32)
                } else {
                    mem_aligned
                };
                *final(self) == (Cpu {
                    pending_load: PendingLoad { reg: (inst.0 >> 16u32) & 0x1F, value: v },
                    ..*old(self)
                })
            }),
    {
        let addr = self.addr_with_imm(inst);
        let value = self.next_regs[inst.rt() as usize];
        proof {
            lemma_low_bits(addr);
        }
        let v = match addr & 3 {
            0 => (value & 0x00FF_FFFF) | (mem_aligned << 24),
            1 => (value & 0x0000_FFFF) | (mem_aligned << 16),
            2 => (value & 0x0000_00FF) | (mem_aligned << 8),
            _ => mem_aligned,
        };
        self.pending_load = PendingLoad { reg: inst.rt(), value: v };
    }

    /// SWL: the word to write back at the aligned address, merging rt into
    /// the word read from there.
    pub fn swl(&self, inst: Inst, mem_aligned: u32) -> (r: u32)
        ensures
            ({
                let addr = self.addr_with_imm_spec(inst);
                let value = self.regs[((inst.0 >> 16u32) & 0x1F) as int];
                r == if addr % 4 == 0 {
                    (value & 0xFFFF_FF00) | (mem_aligned >> 24u32)
                } else if addr % 4 == 1 {
                    (value & 0xFFFF_0000) | (mem_aligned >> 16u32)
                } else if addr % 4 == 2 {
                    (value & 0xFF00_0000) | (mem_aligned >> 8u32)
                } else {
                    mem_aligned
                }
            }),
    {
        let addr = self.addr_with_imm(inst);
        let value = self.reg(inst.rt());
        proof {
            lemma_low_bits(addr);
        }
        match addr & 3 {
            0 => (value & 0xFFFF_FF00) | (mem_aligned >> 24),
            1 => (value & 0xFFFF_0000) | (mem_aligned >> 16),
            2 => (value & 0xFF00_0000) | (mem_aligned >> 8),
            _ => mem_aligned,
        }
    }

    /// SWR: the word to write back at the aligned address, merging rt into
    /// the word read from there.
    pub fn swr(&self, inst: Inst, mem_aligned: u32) -> (r: u32)
        ensures
            ({
                let addr = self.addr_with_imm_spec(inst);
                let value = self.regs[((inst.0 >> 16u32) & 0x1F) as int];
                r == if addr % 4 == 0 {
                    mem_aligned
                } else if addr % 4 == 1 {
                    (value & 0x0000_00FF) | (mem_aligned << 8u32)
                } else if addr % 4 == 2 {
                    (value & 0x0000_FFFF) | (mem_aligned << 16u32)
                } else {
                    (value & 0x00FF_FFFF) | (mem_aligned << 24u32)
                }
            }),
    {
        let addr = self.addr_with_imm(inst);
        let value = self.reg(inst.rt());
        proof {
            lemma_low_bits(addr);
        }
        match addr & 3 {
            0 => mem_aligned,
            1 => (value & 0x0000_00FF) | (mem_aligned << 8),
            2 => (value & 0x0000_FFFF) | (mem_aligned << 16),
            _ => (value & 0x00FF_FFFF) | (mem_aligned << 24),
        }
    }

    /// Address of a load or store, as a spec value.
    pub open spec fn addr_with_imm_spec(&self, inst: Inst) -> u32 {
        let t = self.regs[((inst.0 >> 21u32) & 0x1F) as int] + sign_extend16(inst.0 & 0xFFFF);
        (if t < 0 { t + 0x1_0000_0000 } else if t >= 0x1_0000_0000 { t - 0x1_0000_0000 } else { t }) as u32
    }
}

/// Returning from an exception restores the interrupt enable and mode bits
/// (0-3) of the status register that were current when it was raised;
/// bits 4 and 5 come back cleared and the rest is kept.
pub proof fn lemma_rfe_undoes_exception(sr: u32)
    ensures
        sr_popped(sr_pushed(sr)) == (sr & !0x3Fu32) | (sr & 0xF),
{
    assert(sr_popped(sr_pushed(sr)) == (sr & !0x3Fu32) | (sr & 0xF)) by (bit_vector);
}

} // verus!

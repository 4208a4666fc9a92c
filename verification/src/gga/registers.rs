//! Registers of the GGA's ARM7TDMI CPU.
use vstd::prelude::*;

verus! {

/// If bit `n` of `v` is set.
pub open spec fn bit_set(v: u32, n: u32) -> bool {
    (v >> n) & 1 == 1
}

/// `v` with bit `n` set to `b`.
pub open spec fn with_bit(v: u32, n: u32, b: bool) -> u32 {
    if b {
        v | (1u32 << n)
    } else {
        v & !(1u32 << n)
    }
}

/// Setting a bit makes it read back as set, and leaves all other bits alone.
pub proof fn lemma_with_bit(v: u32, n: u32, b: bool)
    requires
        n < 32,
    ensures
        bit_set(with_bit(v, n, b), n) == b,
        forall|m: u32| m < 32 && m != n ==> bit_set(with_bit(v, n, b), m) == bit_set(v, m),
        with_bit(v, n, b) & 0x1F == if n < 5 { with_bit(v & 0x1F, n, b) } else { v & 0x1F },
{
    assert(bit_set(with_bit(v, n, b), n) == b) by (bit_vector)
        requires
            n < 32,
    ;
    assert forall|m: u32| m < 32 && m != n implies bit_set(with_bit(v, n, b), m) == bit_set(
        v,
        m,
    ) by {
        assert(bit_set(with_bit(v, n, b), m) == bit_set(v, m)) by (bit_vector)
            requires
                m < 32,
                n < 32,
                m != n,
        ;
    }
    assert(with_bit(v, n, b) & 0x1F == if n < 5 { with_bit(v & 0x1F, n, b) } else { v & 0x1F })
        by (bit_vector)
        requires
            n < 32,
    ;
}

/// A register with values for FIQ and all other modes.
#[derive(Clone, Copy)]
pub struct FiqReg {
    pub reg: u32,
    pub fiq: u32,
}

impl Default for FiqReg {
    fn default() -> (r: Self)
        ensures
            r.reg == 0 && r.fiq == 0,
    {
        FiqReg { reg: 0, fiq: 0 }
    }
}

/// Execution context of the CPU.
#[derive(Copy, Clone, PartialEq, Eq, Structural, Debug)]
pub enum Mode {
    User,
    Fiq,
    Supervisor,
    Abort,
    Irq,
    Undefined,
    System,
}

/// If the low 5 bits of a CPSR value name a mode.
pub open spec fn is_mode_bits(n: u32) -> bool {
    ||| n < 0x10
    ||| n == 0x10
    ||| n == 0x11
    ||| n == 0x12
    ||| n == 0x13
    ||| n == 0x17
    ||| n == 0x1B
    ||| n == 0x1F
}

/// The mode that the low 5 bits of a CPSR value name.
/// Values below 0x10 are the 26-bit modes, which map onto their 32-bit
/// counterparts by their low 2 bits.
pub open spec fn mode_of_bits(n: u32) -> Mode {
    if n < 0x10 {
        let low = n % 4;
        if low == 0 {
            Mode::User
        } else if low == 1 {
            Mode::Fiq
        } else if low == 2 {
            Mode::Irq
        } else {
            Mode::Supervisor
        }
    } else if n == 0x10 {
        Mode::User
    } else if n == 0x11 {
        Mode::Fiq
    } else if n == 0x12 {
        Mode::Irq
    } else if n == 0x13 {
        Mode::Supervisor
    } else if n == 0x17 {
        Mode::Abort
    } else if n == 0x1B {
        Mode::Undefined
    } else {
        Mode::System
    }
}

/// The CPSR bits of a mode.
pub open spec fn mode_bits(m: Mode) -> u32 {
    match m {
        Mode::User => 0x10,
        Mode::Fiq => 0x11,
        Mode::Irq => 0x12,
        Mode::Supervisor => 0x13,
        Mode::Abort => 0x17,
        Mode::Undefined => 0x1B,
        Mode::System => 0x1F,
    }
}

/// Index of a mode into the mode-dependent register banks; System mode
/// shares its bank with User mode.
pub open spec fn bank_of(m: Mode) -> int {
    match m {
        Mode::User => 0,
        Mode::Fiq => 1,
        Mode::Supervisor => 2,
        Mode::Abort => 3,
        Mode::Irq => 4,
        Mode::Undefined => 5,
        Mode::System => 0,
    }
}

impl Mode {
    /// Decode the mode from the low 5 bits of CPSR.
    pub fn get(n: u32) -> (m: Self)
        requires
            is_mode_bits(n),
        ensures
            m == mode_of_bits(n),
    {
        if n < 0x10 {
            match n % 4 {
                0 => Self::User,
                1 => Self::Fiq,
                2 => Self::Irq,
                _ => Self::Supervisor,
            }
        } else if n == 0x10 {
            Self::User
        } else if n == 0x11 {
            Self::Fiq
        } else if n == 0x12 {
            Self::Irq
        } else if n == 0x13 {
            Self::Supervisor
        } else if n == 0x17 {
            Self::Abort
        } else if n == 0x1B {
            Self::Undefined
        } else {
            Self::System
        }
    }

    /// The CPSR mode bits of this mode.
    pub fn to_u32(self) -> (r: u32)
        ensures
            r == mode_bits(self),
    {
        match self {
            Self::User => 0b10000,
            Self::Fiq => 0b10001,
            Self::Irq => 0b10010,
            Self::Supervisor => 0b10011,
            Self::Abort => 0b10111,
            Self::Undefined => 0b11011,
            Self::System => 0b11111,
        }
    }

    /// Index into the mode-dependent register banks.
    fn bank(self) -> (r: usize)
        ensures
            r == bank_of(self),
            r < 6,
    {
        match self {
            Self::User => 0,
            Self::Fiq => 1,
            Self::Supervisor => 2,
            Self::Abort => 3,
            Self::Irq => 4,
            Self::Undefined => 5,
            Self::System => 0,
        }
    }
}

/// Encoding a mode and decoding it again gives the same mode; every mode's
/// bits are valid mode bits.
pub proof fn lemma_mode_roundtrip(m: Mode)
    ensures
        is_mode_bits(mode_bits(m)),
        mode_of_bits(mode_bits(m)) == m,
{
}

/// Flags inside CPSR.
#[derive(Copy, Clone, PartialEq, Eq, Structural, Debug)]
pub enum Flag {
    Neg,
    Zero,
    Carry,
    Overflow,
    IrqDisable,
    FiqDisable,
    Thumb,
}

/// Bit position of a flag inside CPSR.
pub open spec fn flag_bit(f: Flag) -> u32 {
    match f {
        Flag::Neg => 31,
        Flag::Zero => 30,
        Flag::Carry => 29,
        Flag::Overflow => 28,
        Flag::IrqDisable => 7,
        Flag::FiqDisable => 6,
        Flag::Thumb => 5,
    }
}

impl Flag {
    /// Bit position of the flag inside CPSR.
    pub fn bit(self) -> (r: u32)
        ensures
            r == flag_bit(self),
    {
        match self {
            Flag::Neg => 31,
            Flag::Zero => 30,
            Flag::Carry => 29,
            Flag::Overflow => 28,
            Flag::IrqDisable => 7,
            Flag::FiqDisable => 6,
            Flag::Thumb => 5,
        }
    }
}

/// A register with different values for the different CPU modes.
pub type ModeReg = [u32; 6];

/// Register state of the CPU.
pub struct Cpu {
    pub fiqs: [FiqReg; 5],
    pub sp: ModeReg,
    pub lr: ModeReg,
    pub cpsr: u32,
    pub spsr: ModeReg,
    pub low: [u32; 8],
    pub pc: u32,
}

impl Cpu {
    /// CPSR holds a valid mode.
    pub open spec fn wf(&self) -> bool {
        is_mode_bits(self.cpsr & 0x1F)
    }

    /// The current mode.
    pub open spec fn mode_spec(&self) -> Mode {
        mode_of_bits(self.cpsr & 0x1F)
    }

    /// If a flag is set in CPSR.
    pub open spec fn flag_spec(&self, f: Flag) -> bool {
        bit_set(self.cpsr, flag_bit(f))
    }

    /// Value of register `idx` as an instruction reads it.
    pub open spec fn reg_spec(&self, idx: u32) -> u32 {
        if idx <= 7 {
            self.low[idx as int]
        } else if idx <= 12 && self.mode_spec() == Mode::Fiq {
            self.fiqs[idx - 8].fiq
        } else if idx <= 12 {
            self.fiqs[idx - 8].reg
        } else if idx == 13 {
            self.sp[bank_of(self.mode_spec())]
        } else if idx == 14 {
            self.lr[bank_of(self.mode_spec())]
        } else {
            self.pc
        }
    }

    /// Get the current CPU mode.
    pub fn mode(&self) -> (m: Mode)
        requires
            self.wf(),
        ensures
            m == self.mode_spec(),
    {
        Mode::get(self.cpsr & 0x1F)
    }

    /// Set the mode bits inside CPSR.
    pub fn set_mode(&mut self, ctx: Mode)
        ensures
            final(self).cpsr == (old(self).cpsr & !0x1Fu32) | mode_bits(ctx),
            final(self).wf(),
            final(self).mode_spec() == ctx,
            final(self).fiqs == old(self).fiqs && final(self).sp == old(self).sp,
            final(self).lr == old(self).lr && final(self).spsr == old(self).spsr,
            final(self).low == old(self).low && final(self).pc == old(self).pc,
    {
        let bits = ctx.to_u32();
        self.cpsr = (self.cpsr & !0x1F) | bits;
        proof {
            let c = old(self).cpsr;
            assert(((c & !0x1Fu32) | bits) & 0x1F == bits) by (bit_vector)
                requires
                    bits < 32,
            ;
            lemma_mode_roundtrip(ctx);
        }
    }

    /// If a flag is set.
    pub fn flag(&self, flag: Flag) -> (r: bool)
        ensures
            r == self.flag_spec(flag),
    {
        (self.cpsr >> flag.bit()) & 1 == 1
    }

    /// Set or clear a flag.
    pub fn set_flag(&mut self, flag: Flag, en: bool)
        ensures
            final(self).cpsr == with_bit(old(self).cpsr, flag_bit(flag), en),
            final(self).fiqs == old(self).fiqs && final(self).sp == old(self).sp,
            final(self).lr == old(self).lr && final(self).spsr == old(self).spsr,
            final(self).low == old(self).low && final(self).pc == old(self).pc,
    {
        let b = flag.bit();
        if en {
            self.cpsr = self.cpsr | (1u32 << b);
        } else {
            self.cpsr = self.cpsr & !(1u32 << b);
        }
    }

    /// Get the 'adjusted' value of the PC that some instructions need.
    pub fn adj_pc(&self) -> (r: u32)
        ensures
            r == self.pc & !2u32,
    {
        self.pc & !2
    }

    /// Size of an instruction: 4 on ARM, 2 on THUMB.
    pub fn inst_size(&self) -> (r: u32)
        ensures
            r == if self.flag_spec(Flag::Thumb) { 2u32 } else { 4u32 },
    {
        if self.flag(Flag::Thumb) {
            2
        } else {
            4
        }
    }

    /// SP of the current mode.
    pub fn sp(&self) -> (r: u32)
        requires
            self.wf(),
        ensures
            r == self.sp[bank_of(self.mode_spec())],
    {
        self.sp[self.mode().bank()]
    }

    /// Set SP of the current mode.
    pub fn set_sp(&mut self, val: u32)
        requires
            old(self).wf(),
        ensures
            final(self).sp@ == old(self).sp@.update(bank_of(old(self).mode_spec()), val),
            final(self).cpsr == old(self).cpsr && final(self).fiqs == old(self).fiqs,
            final(self).lr == old(self).lr && final(self).spsr == old(self).spsr,
            final(self).low == old(self).low && final(self).pc == old(self).pc,
    {
        let b = self.mode().bank();
        self.sp[b] = val;
    }

    /// LR of the current mode.
    pub fn lr(&self) -> (r: u32)
        requires
            self.wf(),
        ensures
            r == self.lr[bank_of(self.mode_spec())],
    {
        self.lr[self.mode().bank()]
    }

    /// Set LR of the current mode.
    pub fn set_lr(&mut self, val: u32)
        requires
            old(self).wf(),
        ensures
            final(self).lr@ == old(self).lr@.update(bank_of(old(self).mode_spec()), val),
            final(self).cpsr == old(self).cpsr && final(self).fiqs == old(self).fiqs,
            final(self).sp == old(self).sp && final(self).spsr == old(self).spsr,
            final(self).low == old(self).low && final(self).pc == old(self).pc,
    {
        let b = self.mode().bank();
        self.lr[b] = val;
    }

    /// SPSR of the current mode.
    pub fn spsr(&self) -> (r: u32)
        requires
            self.wf(),
        ensures
            r == self.spsr[bank_of(self.mode_spec())],
    {
        self.spsr[self.mode().bank()]
    }

    /// Set SPSR of the current mode.
    pub fn set_spsr(&mut self, val: u32)
        requires
            old(self).wf(),
        ensures
            final(self).spsr@ == old(self).spsr@.update(bank_of(old(self).mode_spec()), val),
            final(self).cpsr == old(self).cpsr && final(self).fiqs == old(self).fiqs,
            final(self).sp == old(self).sp && final(self).lr == old(self).lr,
            final(self).low == old(self).low && final(self).pc == old(self).pc,
    {
        let b = self.mode().bank();
        self.spsr[b] = val;
    }

    /// Low register (R0-R7).
    pub fn low(&self, idx: u16) -> (r: u32)
        requires
            idx < 8,
        ensures
            r == self.low[idx as int],
    {
        self.low[idx as usize]
    }

    /// Set the low register named by the 3 bits of `inst` at `pos`.
    pub fn set_low(&mut self, inst: u32, pos: u32, val: u32)
        requires
            pos < 32,
        ensures
            final(self).low@ == old(self).low@.update(((inst >> pos) & 7) as int, val),
            final(self).cpsr == old(self).cpsr && final(self).fiqs == old(self).fiqs,
            final(self).sp == old(self).sp && final(self).lr == old(self).lr,
            final(self).spsr == old(self).spsr && final(self).pc == old(self).pc,
    {
        let i = ((inst >> pos) & 7) as usize;
        proof {
            assert((inst >> pos) & 7 < 8) by (bit_vector);
        }
        self.low[i] = val;
    }

    /// Read a register as an instruction sees it.
    pub fn reg(&self, idx: u32) -> (r: u32)
        requires
            self.wf(),
        ensures
            r == self.reg_spec(idx),
    {
        if idx <= 7 {
            self.low[idx as usize]
        } else if idx <= 12 && self.mode() == Mode::Fiq {
            self.fiqs[(idx - 8) as usize].fiq
        } else if idx <= 12 {
            self.fiqs[(idx - 8) as usize].reg
        } else if idx == 13 {
            self.sp()
        } else if idx == 14 {
            self.lr()
        } else {
            self.pc
        }
    }

    /// Read a register, with the PC 4 ahead.
    pub fn reg_pc4(&self, idx: u32) -> (r: u32)
        requires
            self.wf(),
            idx >= 15 ==> self.pc + 4 <= u32::MAX,
        ensures
            r == if idx >= 15 { (self.pc + 4) as u32 } else { self.reg_spec(idx) },
    {
        if idx >= 15 {
            self.pc + 4
        } else {
            self.reg(idx)
        }
    }

    /// Write a register. Writing the PC aligns it to the instruction size;
    /// the result tells the caller that the pipeline then has to be
    /// refilled.
    pub fn set_reg(&mut self, idx: u32, val: u32) -> (pc_written: bool)
        requires
            old(self).wf(),
        ensures
            final(self).wf(),
            pc_written == (idx >= 15),
            Cpu::reg_written(*old(self), *final(self), idx, val),
            final(self).cpsr == old(self).cpsr,
            final(self).reg_spec(idx) == if idx >= 15 {
                val & !((old(self).inst_size_spec() - 1) as u32)
            } else {
                val
            },
            forall|j: u32|
                j != idx && !(idx == 13 && j >= 15) && !(idx == 14 && j >= 15) && !(idx >= 15
                    && j >= 15) ==> #[trigger] final(self).reg_spec(j) == old(self).reg_spec(j),
    {
        if idx <= 7 {
            self.low[idx as usize] = val;
            false
        } else if idx <= 12 && self.mode() == Mode::Fiq {
            self.fiqs[(idx - 8) as usize].fiq = val;
            false
        } else if idx <= 12 {
            self.fiqs[(idx - 8) as usize].reg = val;
            false
        } else if idx == 13 {
            self.set_sp(val);
            false
        } else if idx == 14 {
            self.set_lr(val);
            false
        } else {
            // Align to 2/4 depending on mode
            self.pc = val & !(self.inst_size() - 1);
            true
        }
    }

    /// `after` is `before` with register `idx` (as an instruction names it
    /// in the current mode) set to `val`; a written PC is aligned.
    pub open spec fn reg_written(before: Cpu, after: Cpu, idx: u32, val: u32) -> bool {
        let m = before.mode_spec();
        &&& after.cpsr == before.cpsr && after.spsr == before.spsr
        &&& idx <= 7 ==> after.low@ == before.low@.update(idx as int, val)
        &&& idx > 7 ==> after.low == before.low
        &&& (8 <= idx <= 12 && m == Mode::Fiq) ==> after.fiqs@ == before.fiqs@.update(
            idx - 8,
            FiqReg { fiq: val, ..before.fiqs[idx - 8] },
        )
        &&& (8 <= idx <= 12 && m != Mode::Fiq) ==> after.fiqs@ == before.fiqs@.update(
            idx - 8,
            FiqReg { reg: val, ..before.fiqs[idx - 8] },
        )
        &&& !(8 <= idx <= 12) ==> after.fiqs == before.fiqs
        &&& idx == 13 ==> after.sp@ == before.sp@.update(bank_of(m), val)
        &&& idx != 13 ==> after.sp == before.sp
        &&& idx == 14 ==> after.lr@ == before.lr@.update(bank_of(m), val)
        &&& idx != 14 ==> after.lr == before.lr
        &&& after.pc == if idx >= 15 {
            val & !((before.inst_size_spec() - 1) as u32)
        } else {
            before.pc
        }
    }

    /// Instruction size as a spec value.
    pub open spec fn inst_size_spec(&self) -> u32 {
        if self.flag_spec(Flag::Thumb) {
            2u32
        } else {
            4u32
        }
    }
}

impl Default for Cpu {
    fn default() -> (c: Self)
        ensures
            c.cpsr == 0xD3,
            c.pc == 4,
            c.wf(),
            c.mode_spec() == Mode::Supervisor,
            c.sp@ == seq![0x0300_7F00u32, 0x0, 0x0300_7FE0, 0x0, 0x0300_7FA0, 0x0],
            forall|i: int| 0 <= i < 6 ==> c.lr[i] == 0 && c.spsr[i] == 0,
            forall|i: int| 0 <= i < 8 ==> c.low[i] == 0,
            forall|i: int| 0 <= i < 5 ==> c.fiqs[i].reg == 0 && c.fiqs[i].fiq == 0,
    {
        let c = Cpu {
            fiqs: [FiqReg { reg: 0, fiq: 0 }; 5],
            sp: [0x0300_7F00, 0x0, 0x0300_7FE0, 0x0, 0x0300_7FA0, 0x0],
            lr: [0; 6],
            cpsr: 0xD3,
            spsr: [0; 6],
            low: [0; 8],
            pc: 4,
        };
        proof {
            assert(0xD3u32 & 0x1F == 0x13) by (bit_vector);
        }
        c
    }
}

} // verus!

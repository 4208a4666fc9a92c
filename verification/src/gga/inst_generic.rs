//! Instruction helpers shared by ARM and THUMB: condition codes,
//! exceptions and interrupts.
use vstd::prelude::*;
use crate::gga::registers::{
    bank_of, bit_set, lemma_mode_roundtrip, lemma_with_bit, mode_bits, with_bit, Cpu, Flag, Mode,
};

verus! {

/// If condition `cond` holds for the flags N, Z, C and V.
pub open spec fn cond_holds(cond: u16, n: bool, z: bool, c: bool, v: bool) -> bool {
    if cond == 0x0 {
        z
    } else if cond == 0x1 {
        !z
    } else if cond == 0x2 {
        c
    } else if cond == 0x3 {
        !c
    } else if cond == 0x4 {
        n
    } else if cond == 0x5 {
        !n
    } else if cond == 0x6 {
        v
    } else if cond == 0x7 {
        !v
    } else if cond == 0x8 {
        c && !z
    } else if cond == 0x9 {
        !c || z
    } else if cond == 0xA {
        n == v
    } else if cond == 0xB {
        n != v
    } else if cond == 0xC {
        !z && n == v
    } else if cond == 0xD {
        z || n != v
    } else if cond == 0xE {
        true
    } else {
        false
    }
}

/// Conditions come in pairs: each odd condition below AL holds exactly
/// when the even one before it does not (EQ and NE, CS and CC, MI and PL,
/// VS and VC, HI and LS, GE and LT, GT and LE).
pub proof fn lemma_cond_pairs(n: bool, z: bool, c: bool, v: bool)
    ensures
        forall|k: u16|
            k < 7 ==> #[trigger] cond_holds((2 * k + 1) as u16, n, z, c, v) == !cond_holds(
                (2 * k) as u16,
                n,
                z,
                c,
                v,
            ),
{
    assert forall|k: u16| k < 7 implies #[trigger] cond_holds((2 * k + 1) as u16, n, z, c, v) == !cond_holds(
        (2 * k) as u16,
        n,
        z,
        c,
        v,
    ) by {
        assert(k == 0 || k == 1 || k == 2 || k == 3 || k == 4 || k == 5 || k == 6);
    }
}

/// The condition table maps the 4 flag bits to the condition's truth.
proof fn lemma_cond_masks(cpsr: u32)
    ensures
        ({
            let f = cpsr >> 28u32;
            let n = (cpsr >> 31u32) & 1 == 1;
            let z = (cpsr >> 30u32) & 1 == 1;
            let c = (cpsr >> 29u32) & 1 == 1;
            let v = (cpsr >> 28u32) & 1 == 1;
            &&& f < 16
            &&& ((0xF0F0u32 & (1u32 << f)) != 0) == z
            &&& ((0x0F0Fu32 & (1u32 << f)) != 0) == !z
            &&& ((0xCCCCu32 & (1u32 << f)) != 0) == c
            &&& ((0x3333u32 & (1u32 << f)) != 0) == !c
            &&& ((0xFF00u32 & (1u32 << f)) != 0) == n
            &&& ((0x00FFu32 & (1u32 << f)) != 0) == !n
            &&& ((0xAAAAu32 & (1u32 << f)) != 0) == v
            &&& ((0x5555u32 & (1u32 << f)) != 0) == !v
            &&& ((0x0C0Cu32 & (1u32 << f)) != 0) == (c && !z)
            &&& ((0xF3F3u32 & (1u32 << f)) != 0) == (!c || z)
            &&& ((0xAA55u32 & (1u32 << f)) != 0) == (n == v)
            &&& ((0x55AAu32 & (1u32 << f)) != 0) == (n != v)
            &&& ((0x0A05u32 & (1u32 << f)) != 0) == (!z && n == v)
            &&& ((0xF5FAu32 & (1u32 << f)) != 0) == (z || n != v)
            &&& ((0xFFFFu32 & (1u32 << f)) != 0)
            &&& !((0x0000u32 & (1u32 << f)) != 0)
        }),
{
    assert({
        let f = cpsr >> 28u32;
        let n = (cpsr >> 31u32) & 1 == 1;
        let z = (cpsr >> 30u32) & 1 == 1;
        let c = (cpsr >> 29u32) & 1 == 1;
        let v = (cpsr >> 28u32) & 1 == 1;
        &&& f < 16
        &&& ((0xF0F0u32 & (1u32 << f)) != 0) == z
        &&& ((0x0F0Fu32 & (1u32 << f)) != 0) == !z
        &&& ((0xCCCCu32 & (1u32 << f)) != 0) == c
        &&& ((0x3333u32 & (1u32 << f)) != 0) == !c
        &&& ((0xFF00u32 & (1u32 << f)) != 0) == n
        &&& ((0x00FFu32 & (1u32 << f)) != 0) == !n
        &&& ((0xAAAAu32 & (1u32 << f)) != 0) == v
        &&& ((0x5555u32 & (1u32 << f)) != 0) == !v
        &&& ((0x0C0Cu32 & (1u32 << f)) != 0) == (c && !z)
        &&& ((0xF3F3u32 & (1u32 << f)) != 0) == (!c || z)
        &&& ((0xAA55u32 & (1u32 << f)) != 0) == (n == v)
        &&& ((0x55AAu32 & (1u32 << f)) != 0) == (n != v)
        &&& ((0x0A05u32 & (1u32 << f)) != 0) == (!z && n == v)
        &&& ((0xF5FAu32 & (1u32 << f)) != 0) == (z || n != v)
        &&& ((0xFFFFu32 & (1u32 << f)) != 0)
        &&& !((0x0000u32 & (1u32 << f)) != 0)
    }) by (bit_vector);
}

impl Cpu {
    /// If an instruction with condition `cond` executes under the current
    /// flags.
    pub fn eval_condition(&self, cond: u16) -> (r: bool)
        requires
            cond < 16,
        ensures
            r == cond_holds(
                cond,
                self.flag_spec(Flag::Neg),
                self.flag_spec(Flag::Zero),
                self.flag_spec(Flag::Carry),
                self.flag_spec(Flag::Overflow),
            ),
    {
        let flags = self.cpsr >> 28;
        proof {
            lemma_cond_masks(self.cpsr);
        }
        let mask: u32 = // This condition table is taken from mGBA sources, which are licensed under
        // MPL2 at https://github.com/mgba-emu/mgba
        match cond {
            0x0 => 0xF0F0,  // EQ [-Z--]
            0x1 => 0x0F0F,  // NE [-z--]
            0x2 => 0xCCCC,  // CS [--C-]
            0x3 => 0x3333,  // CC [--c-]
            0x4 => 0xFF00,  // MI [N---]
            0x5 => 0x00FF,  // PL [n---]
            0x6 => 0xAAAA,  // VS [---V]
            0x7 => 0x5555,  // VC [---v]
            0x8 => 0x0C0C,  // HI [-zC-]
            0x9 => 0xF3F3,  // LS [-Z--] || [--c-]
            0xA => 0xAA55,  // GE [N--V] || [n--v]
            0xB => 0x55AA,  // LT [N--v] || [n--V]
            0xC => 0x0A05,  // GT [Nz-V] || [nz-v]
            0xD => 0xF5FA,  // LE [-Z--] || [Nz-v] || [nz-V]
            0xE => 0xFFFF,  // AL [----]
            _ => 0x0000,  // NV
        };
        (mask & (1u32 << flags)) != 0
    }

    /// Mnemonic suffix of a condition.
    pub fn condition_mnemonic(cond: u16) -> (r: &'static str)
        ensures
            r@ == cond_mnemonic(cond),
    {
        match cond {
            0x0 => "eq",
            0x1 => "ne",
            0x2 => "cs",
            0x3 => "cc",
            0x4 => "mi",
            0x5 => "pl",
            0x6 => "vs",
            0x7 => "vc",
            0x8 => "hi",
            0x9 => "ls",
            0xA => "ge",
            0xB => "lt",
            0xC => "gt",
            0xD => "le",
            0xE => "",
            _ => "nv",
        }
    }
}

/// Mnemonic suffix of a condition.
pub open spec fn cond_mnemonic(cond: u16) -> Seq<char> {
    if cond == 0x0 {
        "eq"@
    } else if cond == 0x1 {
        "ne"@
    } else if cond == 0x2 {
        "cs"@
    } else if cond == 0x3 {
        "cc"@
    } else if cond == 0x4 {
        "mi"@
    } else if cond == 0x5 {
        "pl"@
    } else if cond == 0x6 {
        "vs"@
    } else if cond == 0x7 {
        "vc"@
    } else if cond == 0x8 {
        "hi"@
    } else if cond == 0x9 {
        "ls"@
    } else if cond == 0xA {
        "ge"@
    } else if cond == 0xB {
        "lt"@
    } else if cond == 0xC {
        "gt"@
    } else if cond == 0xD {
        "le"@
    } else if cond == 0xE {
        ""@
    } else {
        "nv"@
    }
}

/// Modify a value with an offset, either adding or subtracting.
pub fn mod_with_offs(value: u32, offs: u32, up: bool) -> (r: u32)
    ensures
        up ==> r == (value + offs) % 0x1_0000_0000,
        !up ==> r == (if value >= offs { value - offs } else { value - offs + 0x1_0000_0000 }),
{
    if up {
        value.wrapping_add(offs)
    } else {
        value.wrapping_sub(offs)
    }
}

/// Possible interrupts.
#[derive(Copy, Clone, PartialEq, Eq, Structural, Debug)]
pub enum Interrupt {
    VBlank,
    HBlank,
    VCounter,
    Timer0,
    Timer1,
    Timer2,
    Timer3,
    Serial,
    Dma0,
    Dma1,
    Dma2,
    Dma3,
    Joypad,
    GamePak,
}

/// Bit of an interrupt in IE/IF.
pub open spec fn interrupt_index(i: Interrupt) -> u16 {
    match i {
        Interrupt::VBlank => 0,
        Interrupt::HBlank => 1,
        Interrupt::VCounter => 2,
        Interrupt::Timer0 => 3,
        Interrupt::Timer1 => 4,
        Interrupt::Timer2 => 5,
        Interrupt::Timer3 => 6,
        Interrupt::Serial => 7,
        Interrupt::Dma0 => 8,
        Interrupt::Dma1 => 9,
        Interrupt::Dma2 => 10,
        Interrupt::Dma3 => 11,
        Interrupt::Joypad => 12,
        Interrupt::GamePak => 13,
    }
}

impl Interrupt {
    /// Bit of this interrupt in IE/IF.
    pub fn index(self) -> (r: u16)
        ensures
            r == interrupt_index(self),
            r < 14,
    {
        match self {
            Interrupt::VBlank => 0,
            Interrupt::HBlank => 1,
            Interrupt::VCounter => 2,
            Interrupt::Timer0 => 3,
            Interrupt::Timer1 => 4,
            Interrupt::Timer2 => 5,
            Interrupt::Timer3 => 6,
            Interrupt::Serial => 7,
            Interrupt::Dma0 => 8,
            Interrupt::Dma1 => 9,
            Interrupt::Dma2 => 10,
            Interrupt::Dma3 => 11,
            Interrupt::Joypad => 12,
            Interrupt::GamePak => 13,
        }
    }
}

/// Possible exceptions.
/// Most are only listed to preserve bit order in IE/IF, only SWI
/// and IRQ ever get raised on the GGA. (UND does as well, but this
/// emulator doesn't implement that.)
#[derive(Copy, Clone, PartialEq, Eq, Structural, Debug)]
pub enum Exception {
    Reset,
    Undefined,
    Swi,
    PrefetchAbort,
    DataAbort,
    AddressExceeded,
    Irq,
    Fiq,
}

/// Position of an exception in the vector table.
pub open spec fn exception_index(e: Exception) -> u32 {
    match e {
        Exception::Reset => 0,
        Exception::Undefined => 1,
        Exception::Swi => 2,
        Exception::PrefetchAbort => 3,
        Exception::DataAbort => 4,
        Exception::AddressExceeded => 5,
        Exception::Irq => 6,
        Exception::Fiq => 7,
    }
}

impl Exception {
    /// Vector to set the PC to when this exception occurs.
    pub fn vector(self) -> (r: u32)
        ensures
            r == exception_index(self) * 4,
    {
        match self {
            Exception::Reset => 0x00,
            Exception::Undefined => 0x04,
            Exception::Swi => 0x08,
            Exception::PrefetchAbort => 0x0C,
            Exception::DataAbort => 0x10,
            Exception::AddressExceeded => 0x14,
            Exception::Irq => 0x18,
            Exception::Fiq => 0x1C,
        }
    }

    /// Mode to execute the exception in.
    pub fn mode(self) -> (m: Mode)
        ensures
            m == match self {
                Exception::Reset => Mode::Supervisor,
                Exception::Undefined => Mode::Undefined,
                Exception::Swi => Mode::Supervisor,
                Exception::PrefetchAbort => Mode::Abort,
                Exception::DataAbort => Mode::Abort,
                Exception::AddressExceeded => Mode::Supervisor,
                Exception::Irq => Mode::Irq,
                Exception::Fiq => Mode::Fiq,
            },
    {
        match self {
            Exception::Reset => Mode::Supervisor,
            Exception::Undefined => Mode::Undefined,
            Exception::Swi => Mode::Supervisor,
            Exception::PrefetchAbort => Mode::Abort,
            Exception::DataAbort => Mode::Abort,
            Exception::AddressExceeded => Mode::Supervisor,
            Exception::Irq => Mode::Irq,
            Exception::Fiq => Mode::Fiq,
        }
    }
}

/// Mode of an exception.
pub open spec fn exception_mode(e: Exception) -> Mode {
    match e {
        Exception::Reset => Mode::Supervisor,
        Exception::Undefined => Mode::Undefined,
        Exception::Swi => Mode::Supervisor,
        Exception::PrefetchAbort => Mode::Abort,
        Exception::DataAbort => Mode::Abort,
        Exception::AddressExceeded => Mode::Supervisor,
        Exception::Irq => Mode::Irq,
        Exception::Fiq => Mode::Fiq,
    }
}

/// CPSR on entering an exception from `cpsr`: the exception's mode, ARM
/// state, IRQs off, and FIQs off too for reset and FIQ.
pub open spec fn exception_cpsr(cpsr: u32, e: Exception) -> u32 {
    let moded = (cpsr & !0x1Fu32) | mode_bits(exception_mode(e));
    let c = with_bit(with_bit(moded, 5, false), 7, true);
    if e == Exception::Reset || e == Exception::Fiq {
        with_bit(c, 6, true)
    } else {
        c
    }
}

/// Internal cycles a multiplication by `value` takes: one, plus one for
/// each further byte that is not all zeroes (or, for signed, all ones).
pub open spec fn mul_cycles(value: u32, signed: bool) -> nat {
    let m8 = value & 0xFFFF_FF00;
    let m16 = value & 0xFFFF_0000;
    let m24 = value & 0xFF00_0000;
    if m8 == 0 || (signed && m8 == 0xFFFF_FF00) {
        1
    } else if m16 == 0 || (signed && m16 == 0xFFFF_0000) {
        2
    } else if m24 == 0 || (signed && m24 == 0xFF00_0000) {
        3
    } else {
        4
    }
}

/// CPU state after entering exception `kind` (see `Cpu::enter_exception`).
pub open spec fn exception_post(before: Cpu, after: Cpu, kind: Exception) -> bool {
    let pc1 = ((if before.flag_spec(Flag::Thumb) { before.pc + 2 } else { before.pc as int }) % 0x1_0000_0000) as u32;
    let b = bank_of(exception_mode(kind));
    &&& after.wf()
    &&& after.cpsr == exception_cpsr(before.cpsr, kind)
    &&& after.mode_spec() == exception_mode(kind)
    &&& after.lr@ == before.lr@.update(b, (pc1 - 4) as u32)
    &&& after.spsr@ == before.spsr@.update(b, before.cpsr)
    &&& after.pc == exception_index(kind) * 4
    &&& after.low == before.low && after.fiqs == before.fiqs
    &&& after.sp == before.sp
}

/// An IRQ is taken: IME on, IRQs not disabled in CPSR, and an enabled
/// interrupt requested.
pub open spec fn irq_pending(c: Cpu, ime: u16, ie: u16, if_: u16) -> bool {
    ime == 1 && !c.flag_spec(Flag::IrqDisable) && ie & if_ != 0
}

/// The CPU with the PC moved ahead by 4, wrapping.
pub open spec fn pc_ahead(c: Cpu) -> Cpu {
    Cpu { pc: ((c.pc + 4) % 0x1_0000_0000) as u32, ..c }
}

impl Cpu {
    /// Enter an exception: switch to its mode in ARM state with IRQs (and
    /// for reset and FIQ, FIQs) disabled, save the return address in LR
    /// and the old CPSR in SPSR, and jump to the vector. The system then
    /// refills the pipeline.
    pub fn enter_exception(&mut self, kind: Exception)
        requires
            old(self).wf(),
            (if old(self).flag_spec(Flag::Thumb) { old(self).pc + 2 } else { old(self).pc as int }) % 0x1_0000_0000 >= 4,
        ensures
            exception_post(*old(self), *final(self), kind),
    {
        if self.flag(Flag::Thumb) {
            self.pc = self.pc.wrapping_add(2);
        }
        let cpsr = self.cpsr;
        self.set_mode(kind.mode());
        self.set_flag(Flag::Thumb, false);
        self.set_flag(Flag::IrqDisable, true);
        if kind == Exception::Reset || kind == Exception::Fiq {
            self.set_flag(Flag::FiqDisable, true);
        }
        proof {
            let moded = (cpsr & !0x1Fu32) | mode_bits(exception_mode(kind));
            lemma_mode_roundtrip(exception_mode(kind));
            lemma_with_bit(moded, 5, false);
            lemma_with_bit(with_bit(moded, 5, false), 7, true);
            lemma_with_bit(with_bit(with_bit(moded, 5, false), 7, true), 6, true);
        }
        let ret = self.pc - 4;
        self.set_lr(ret);
        self.set_spsr(cpsr);
        self.pc = kind.vector();
    }

    /// Check if an interrupt needs to be handled, from IME, IE and IF, and
    /// take it if so: the PC moves 4 ahead and the IRQ exception is
    /// entered. Returns if it was taken.
    pub fn check_if_interrupt(&mut self, ime: u16, ie: u16, if_: u16) -> (taken: bool)
        requires
            old(self).wf(),
            irq_pending(*old(self), ime, ie, if_) ==> (if pc_ahead(*old(self)).flag_spec(Flag::Thumb) {
                pc_ahead(*old(self)).pc + 2
            } else {
                pc_ahead(*old(self)).pc as int
            }) % 0x1_0000_0000 >= 4,
        ensures
            taken == irq_pending(*old(self), ime, ie, if_),
            taken ==> exception_post(pc_ahead(*old(self)), *final(self), Exception::Irq),
            !taken ==> *final(self) == *old(self),
    {
        let irq = ime == 1 && !self.flag(Flag::IrqDisable) && (ie & if_) != 0;
        if irq {
            self.pc = self.pc.wrapping_add(4);
            self.enter_exception(Exception::Irq);
        }
        irq
    }

    /// Internal cycles a multiplication by `value` takes.
    pub fn mul_wait_cycles(value: u32, signed: bool) -> (r: u32)
        ensures
            r == mul_cycles(value, signed),
    {
        let mut cycles: u32 = 1;
        let mut mask: u32 = 0xFFFF_FF00;
        let mut v = value;
        loop
            invariant
                1 <= cycles <= 4,
                cycles == 1 ==> mask == 0xFFFF_FF00 && v == value,
                cycles == 2 ==> mask == 0xFFFF_0000 && v == value & 0xFFFF_FF00 && !(v == 0 || (signed
                    && v == 0xFFFF_FF00)),
                cycles == 3 ==> mask == 0xFF00_0000 && v == value & 0xFFFF_0000 && !(value & 0xFFFF_FF00 == 0 || (signed
                    && value & 0xFFFF_FF00 == 0xFFFF_FF00)) && !(v == 0 || (signed && v == 0xFFFF_0000)),
                cycles == 4 ==> mask == 0 && !(value & 0xFFFF_FF00 == 0 || (signed
                    && value & 0xFFFF_FF00 == 0xFFFF_FF00)) && !(value & 0xFFFF_0000 == 0 || (signed
                    && value & 0xFFFF_0000 == 0xFFFF_0000)) && !(value & 0xFF00_0000 == 0 || (signed
                    && value & 0xFF00_0000 == 0xFF00_0000)),
            ensures
                cycles == mul_cycles(value, signed),
            decreases 4 - cycles,
        {
            let masked = v & mask;
            proof {
                assert((value & 0xFFFF_FF00) & 0xFFFF_0000 == value & 0xFFFF_0000) by (bit_vector);
                assert((value & 0xFFFF_0000) & 0xFF00_0000 == value & 0xFF00_0000) by (bit_vector);
                assert(v & 0 == 0) by (bit_vector);
            }
            if masked == 0 || (signed && masked == mask) {
                return cycles;
            }
            cycles = cycles + 1;
            v = masked;
            mask = if mask == 0xFFFF_FF00 {
                0xFFFF_0000
            } else if mask == 0xFFFF_0000 {
                0xFF00_0000
            } else {
                0
            };
        }
    }
}

/// Number of table entries a span of a 256-entry dispatch table covers:
/// those whose top `size` bits are the span's index.
pub open spec fn span_len(size: usize) -> int {
    if size == 0 {
        256
    } else if size == 1 {
        128
    } else if size == 2 {
        64
    } else if size == 3 {
        32
    } else if size == 4 {
        16
    } else if size == 5 {
        8
    } else if size == 6 {
        4
    } else if size == 7 {
        2
    } else {
        1
    }
}

/// Point all entries of a dispatch table indexed by an instruction's top
/// byte whose top `size` bits are `idx` at `handler`.
pub fn lut_span<T: Copy>(lut: &mut Vec<T>, idx: usize, size: usize, handler: T)
    requires
        size <= 8,
        (idx + 1) * span_len(size) <= old(lut).len(),
    ensures
        final(lut).len() == old(lut).len(),
        forall|i: int|
            0 <= i < old(lut).len() ==> #[trigger] final(lut)[i] == if idx * span_len(size) <= i < (idx + 1)
                * span_len(size) {
                handler
            } else {
                old(lut)[i]
            },
{
    let inst = 8 - size;
    let until: usize = 1 << inst;
    proof {
        assert(1usize << inst == if inst == 8 {
            256usize
        } else if inst == 7 {
            128usize
        } else if inst == 6 {
            64usize
        } else if inst == 5 {
            32usize
        } else if inst == 4 {
            16usize
        } else if inst == 3 {
            8usize
        } else if inst == 2 {
            4usize
        } else if inst == 1 {
            2usize
        } else {
            1usize
        }) by (bit_vector)
            requires
                inst <= 8,
        ;
        assert(idx * until <= (idx + 1) * until) by (nonlinear_arith);
    }
    let start = idx * until;
    let mut i: usize = 0;
    while i < until
        invariant
            until == span_len(size),
            start == idx * span_len(size),
            start + until <= old(lut).len(),
            i <= until,
            lut.len() == old(lut).len(),
            forall|j: int|
                0 <= j < old(lut).len() ==> #[trigger] lut[j] == if start <= j < start + i {
                    handler
                } else {
                    old(lut)[j]
                },
        decreases until - i,
    {
        lut[start + i] = handler;
        i += 1;
    }
}

} // verus!

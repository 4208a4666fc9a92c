//! The GG's CPU registers and flags.
use vstd::prelude::*;

verus! {

/// If bit `n` of a byte is set.
pub open spec fn bit8(v: u8, n: u8) -> bool {
    (v >> n) & 1 == 1
}

/// A byte with bit `n` set to `b`.
pub open spec fn with_bit8(v: u8, n: u8, b: bool) -> u8 {
    if b {
        v | (1u8 << n)
    } else {
        v & !(1u8 << n)
    }
}

/// Setting a bit of a byte: it reads back, the other bits stay.
pub proof fn lemma_with_bit8(v: u8, n: u8, b: bool)
    requires
        n < 8,
    ensures
        bit8(with_bit8(v, n, b), n) == b,
        forall|m: u8| m < 8 && m != n ==> #[trigger] bit8(with_bit8(v, n, b), m) == bit8(v, m),
{
    assert(bit8(with_bit8(v, n, b), n) == b) by (bit_vector)
        requires
            n < 8,
    ;
    assert forall|m: u8| m < 8 && m != n implies #[trigger] bit8(with_bit8(v, n, b), m) == bit8(
        v,
        m,
    ) by {
        assert(bit8(with_bit8(v, n, b), m) == bit8(v, m)) by (bit_vector)
            requires
                m < 8,
                n < 8,
                m != n,
        ;
    }
}

/// The CPU's registers.
#[derive(Debug, Copy, Clone, PartialEq, Eq, Structural)]
pub enum Reg {
    A,
    B,
    C,
    D,
    E,
    F,
    H,
    L,
}

/// Index of a register in the register file.
pub open spec fn reg_index(r: Reg) -> int {
    match r {
        Reg::A => 0,
        Reg::B => 1,
        Reg::C => 2,
        Reg::D => 3,
        Reg::E => 4,
        Reg::F => 5,
        Reg::H => 6,
        Reg::L => 7,
    }
}

impl Reg {
    /// Index of the register in the register file.
    pub fn i(self) -> (r: usize)
        ensures
            r == reg_index(self),
            r < 8,
    {
        match self {
            Reg::A => 0,
            Reg::B => 1,
            Reg::C => 2,
            Reg::D => 3,
            Reg::E => 4,
            Reg::F => 5,
            Reg::H => 6,
            Reg::L => 7,
        }
    }
}

/// The CPU's double registers.
#[derive(Debug, Copy, Clone, PartialEq, Eq, Structural)]
pub enum DReg {
    BC,
    DE,
    HL,
    AF,
}

/// Low half of a double register.
pub open spec fn dreg_low(r: DReg) -> Reg {
    match r {
        DReg::BC => Reg::C,
        DReg::DE => Reg::E,
        DReg::HL => Reg::L,
        DReg::AF => Reg::F,
    }
}

/// High half of a double register.
pub open spec fn dreg_high(r: DReg) -> Reg {
    match r {
        DReg::BC => Reg::B,
        DReg::DE => Reg::D,
        DReg::HL => Reg::H,
        DReg::AF => Reg::A,
    }
}

impl DReg {
    /// Low half of the double register.
    pub fn low(self) -> (r: Reg)
        ensures
            r == dreg_low(self),
    {
        match self {
            DReg::BC => Reg::C,
            DReg::DE => Reg::E,
            DReg::HL => Reg::L,
            DReg::AF => Reg::F,
        }
    }

    /// High half of the double register.
    pub fn high(self) -> (r: Reg)
        ensures
            r == dreg_high(self),
    {
        match self {
            DReg::BC => Reg::B,
            DReg::DE => Reg::D,
            DReg::HL => Reg::H,
            DReg::AF => Reg::A,
        }
    }
}

/// Flags stored in the F register.
#[derive(Copy, Clone, PartialEq, Eq, Structural, Debug)]
pub enum Flag {
    Zero,
    Negative,
    HalfCarry,
    Carry,
}

/// Bit of a flag in F.
pub open spec fn flag_bit(f: Flag) -> u8 {
    match f {
        Flag::Zero => 7,
        Flag::Negative => 6,
        Flag::HalfCarry => 5,
        Flag::Carry => 4,
    }
}

/// F with only this flag set.
pub open spec fn flag_mask(f: Flag) -> u8 {
    match f {
        Flag::Zero => 0x80u8,
        Flag::Negative => 0x40u8,
        Flag::HalfCarry => 0x20u8,
        Flag::Carry => 0x10u8,
    }
}

impl Flag {
    /// Bit of the flag in F.
    pub fn bit(self) -> (r: u16)
        ensures
            r == flag_bit(self),
    {
        match self {
            Flag::Zero => 7,
            Flag::Negative => 6,
            Flag::HalfCarry => 5,
            Flag::Carry => 4,
        }
    }

    /// F with only this flag set.
    pub fn mask(self) -> (r: u8)
        ensures
            r == 1u8 << flag_bit(self),
            r == flag_mask(self),
    {
        let r = match self {
            Flag::Zero => 0x80,
            Flag::Negative => 0x40,
            Flag::HalfCarry => 0x20,
            Flag::Carry => 0x10,
        };
        proof {
            assert(1u8 << 7u8 == 0x80 && 1u8 << 6u8 == 0x40 && 1u8 << 5u8 == 0x20 && 1u8 << 4u8
                == 0x10) by (bit_vector);
        }
        r
    }

    /// The mask if `value` is non-zero, else 0.
    pub fn from(self, value: u8) -> (r: u8)
        ensures
            r == if value != 0 { flag_mask(self) } else { 0u8 },
    {
        if value != 0 {
            self.mask()
        } else {
            0
        }
    }
}

/// Interrupts and their vectors.
#[derive(Copy, Clone, PartialEq, Eq, Structural, Debug)]
pub enum Interrupt {
    VBlank,
    Stat,
    Timer,
    Serial,
    Joypad,
}

/// Vector address of an interrupt.
pub open spec fn interrupt_addr(i: Interrupt) -> u16 {
    match i {
        Interrupt::VBlank => 0x40,
        Interrupt::Stat => 0x48,
        Interrupt::Timer => 0x50,
        Interrupt::Serial => 0x58,
        Interrupt::Joypad => 0x60,
    }
}

/// Interrupt of a given priority index.
pub open spec fn interrupt_of_index(index: u16) -> Interrupt {
    if index == 0 {
        Interrupt::VBlank
    } else if index == 1 {
        Interrupt::Stat
    } else if index == 2 {
        Interrupt::Timer
    } else if index == 3 {
        Interrupt::Serial
    } else {
        Interrupt::Joypad
    }
}

impl Interrupt {
    /// Index of this interrupt in IE/IF.
    pub fn to_index(self) -> (r: u16)
        ensures
            r == (interrupt_addr(self) - 0x40) / 8,
            r < 5,
    {
        (self.addr() - 0x40) / 8
    }

    /// The interrupt at the given index in IE/IF.
    pub fn from_index(index: u16) -> (r: Self)
        requires
            index < 5,
        ensures
            r == interrupt_of_index(index),
    {
        match index {
            0 => Self::VBlank,
            1 => Self::Stat,
            2 => Self::Timer,
            3 => Self::Serial,
            _ => Self::Joypad,
        }
    }

    /// Vector address of the interrupt.
    pub fn addr(self) -> (r: u16)
        ensures
            r == interrupt_addr(self),
    {
        match self {
            Interrupt::VBlank => 0x0040,
            Interrupt::Stat => 0x0048,
            Interrupt::Timer => 0x0050,
            Interrupt::Serial => 0x0058,
            Interrupt::Joypad => 0x0060,
        }
    }
}

/// An interrupt's index leads back to the interrupt, and every index below 5
/// names an interrupt whose index it is.
pub proof fn lemma_interrupt_index_roundtrip(i: Interrupt, index: u16)
    ensures
        interrupt_of_index(((interrupt_addr(i) - 0x40) / 8) as u16) == i,
        index < 5 ==> (interrupt_addr(interrupt_of_index(index)) - 0x40) / 8 == index,
{
}

/// The system CPU and it's registers.
#[derive(Debug)]
pub struct Cpu {
    pub pc: u16,
    pub sp: u16,
    pub ime: bool,
    pub halt_bug: bool,
    pub regs: [u8; 8],
}

impl Cpu {
    /// Value of a register.
    pub open spec fn reg_spec(&self, r: Reg) -> u8 {
        self.regs[reg_index(r)]
    }

    /// If a flag is set.
    pub open spec fn flag_spec(&self, f: Flag) -> bool {
        bit8(self.reg_spec(Reg::F), flag_bit(f))
    }

    /// Value of a double register.
    pub open spec fn dreg_spec(&self, r: DReg) -> u16 {
        (self.reg_spec(dreg_high(r)) * 256 + self.reg_spec(dreg_low(r))) as u16
    }

    /// All registers but F stay as they are.
    pub open spec fn same_but_f(&self, other: Cpu) -> bool {
        &&& self.pc == other.pc
        &&& self.sp == other.sp
        &&& self.ime == other.ime
        &&& self.halt_bug == other.halt_bug
        &&& forall|i: int| 0 <= i < 8 && i != 5 ==> self.regs[i] == other.regs[i]
    }

    /// If a flag is set.
    pub fn flag(&self, flag: Flag) -> (r: bool)
        ensures
            r == self.flag_spec(flag),
    {
        (self.reg(Reg::F) >> (flag.bit() as u8)) & 1 == 1
    }

    /// Set a flag if `val` is not zero, else clear it.
    pub fn set_fli(&mut self, flag: Flag, val: u8)
        ensures
            final(self).regs@ == old(self).regs@.update(
                5,
                with_bit8(old(self).reg_spec(Reg::F), flag_bit(flag), val != 0),
            ),
            final(self).pc == old(self).pc && final(self).sp == old(self).sp,
            final(self).ime == old(self).ime && final(self).halt_bug == old(self).halt_bug,
    {
        self.set_fl(flag, val != 0)
    }

    /// Set a flag if `val` is not zero, else clear it.
    pub fn set_fli16(&mut self, flag: Flag, val: u16)
        ensures
            final(self).regs@ == old(self).regs@.update(
                5,
                with_bit8(old(self).reg_spec(Reg::F), flag_bit(flag), val != 0),
            ),
            final(self).pc == old(self).pc && final(self).sp == old(self).sp,
            final(self).ime == old(self).ime && final(self).halt_bug == old(self).halt_bug,
    {
        self.set_fl(flag, val != 0)
    }

    /// Set or clear a flag.
    pub fn set_fl(&mut self, flag: Flag, val: bool)
        ensures
            final(self).regs@ == old(self).regs@.update(
                5,
                with_bit8(old(self).reg_spec(Reg::F), flag_bit(flag), val),
            ),
            final(self).pc == old(self).pc && final(self).sp == old(self).sp,
            final(self).ime == old(self).ime && final(self).halt_bug == old(self).halt_bug,
    {
        let f = self.reg(Reg::F);
        let b = flag.bit() as u8;
        let v = if val {
            f | (1u8 << b)
        } else {
            f & !(1u8 << b)
        };
        self.regs[5] = v;
    }

    /// Value of a register.
    pub fn reg(&self, reg: Reg) -> (r: u8)
        ensures
            r == self.reg_spec(reg),
    {
        self.regs[reg.i()]
    }

    /// Write a register. Register F only allows writing the 4 high/flag bits.
    pub fn set_reg(&mut self, reg: Reg, value: u8)
        ensures
            final(self).regs@ == old(self).regs@.update(
                reg_index(reg),
                if reg == Reg::F { value & 0xF0 } else { value },
            ),
            final(self).pc == old(self).pc && final(self).sp == old(self).sp,
            final(self).ime == old(self).ime && final(self).halt_bug == old(self).halt_bug,
    {
        let value = if reg == Reg::F {
            value & 0xF0
        } else {
            value
        };
        self.regs[reg.i()] = value;
    }

    /// Value of a double register.
    pub fn dreg(&self, reg: DReg) -> (r: u16)
        ensures
            r == self.dreg_spec(reg),
    {
        let low = self.reg(reg.low());
        let high = self.reg(reg.high());
        proof {
            assert(((high as u16) << 8u16) | (low as u16) == (high as u16) * 256 + (low as u16))
                by (bit_vector);
        }
        ((high as u16) << 8) | (low as u16)
    }

    /// Write a double register.
    pub fn set_dreg(&mut self, reg: DReg, value: u16)
        ensures
            final(self).regs@ == old(self).regs@.update(
                reg_index(dreg_low(reg)),
                if reg == DReg::AF { (value % 256) as u8 & 0xF0 } else { (value % 256) as u8 },
            ).update(reg_index(dreg_high(reg)), (value / 256) as u8),
            final(self).pc == old(self).pc && final(self).sp == old(self).sp,
            final(self).ime == old(self).ime && final(self).halt_bug == old(self).halt_bug,
    {
        proof {
            assert(value & 0xFF == value % 256 && value >> 8u16 == value / 256) by (bit_vector);
        }
        self.set_reg(reg.low(), (value & 0xFF) as u8);
        self.set_reg(reg.high(), (value >> 8) as u8);
    }
}

/// Writing a double register and reading it back gives the value written;
/// for AF, only the flag bits of the low half are kept.
pub proof fn lemma_dreg_roundtrip(c: Cpu, r: DReg, value: u16, after: Cpu)
    requires
        after.regs@ == c.regs@.update(
            reg_index(dreg_low(r)),
            if r == DReg::AF { (value % 256) as u8 & 0xF0 } else { (value % 256) as u8 },
        ).update(reg_index(dreg_high(r)), (value / 256) as u8),
    ensures
        after.dreg_spec(r) == if r == DReg::AF { value & 0xFFF0 } else { value },
{
    let lo = (value % 256) as u8;
    assert(lo & 0xF0 == lo - lo % 16 && value & 0xFFF0 == value - value % 16) by (bit_vector);
}

impl Default for Cpu {
    fn default() -> (c: Self)
        ensures
            c.pc == 0 && c.sp == 0 && !c.ime && !c.halt_bug,
            forall|i: int| 0 <= i < 8 ==> c.regs[i] == 0,
    {
        Cpu { pc: 0, sp: 0, ime: false, halt_bug: false, regs: [0; 8] }
    }
}

} // verus!

//! Fields of a PSX (MIPS R3000A) instruction word.
use vstd::prelude::*;
use crate::bits::lemma_mask_bounds;

verus! {

/// A 16-bit immediate, sign-extended.
pub open spec fn sign_extend16(v: u32) -> i32 {
    if v >= 0x8000 {
        (v - 0x1_0000) as i32
    } else {
        v as i32
    }
}

/// An instruction word.
#[derive(Copy, Clone)]
pub struct Inst(pub u32);

impl Inst {
    /// Source register.
    pub fn rs(self) -> (r: u32)
        ensures
            r == (self.0 >> 21u32) & 0x1F,
            r < 32,
    {
        proof {
            lemma_mask_bounds();
        }
        (self.0 >> 21) & 0x1F
    }

    /// Target register.
    pub fn rt(self) -> (r: u32)
        ensures
            r == (self.0 >> 16u32) & 0x1F,
            r < 32,
    {
        proof {
            lemma_mask_bounds();
        }
        (self.0 >> 16) & 0x1F
    }

    /// Destination register.
    pub fn rd(self) -> (r: u32)
        ensures
            r == (self.0 >> 11u32) & 0x1F,
            r < 32,
    {
        proof {
            lemma_mask_bounds();
        }
        (self.0 >> 11) & 0x1F
    }

    /// 5-bit shift amount.
    pub fn imm5(self) -> (r: u32)
        ensures
            r == (self.0 >> 6u32) & 0x1F,
            r < 32,
    {
        proof {
            lemma_mask_bounds();
        }
        (self.0 >> 6) & 0x1F
    }

    /// 16-bit immediate, zero-extended.
    pub fn imm16(self) -> (r: u32)
        ensures
            r == self.0 & 0xFFFF,
            r < 0x1_0000,
    {
        proof {
            lemma_mask_bounds();
        }
        self.0 & 0xFFFF
    }

    /// 16-bit immediate, sign-extended.
    pub fn imm16s(self) -> (r: i32)
        ensures
            r == sign_extend16(self.0 & 0xFFFF),
            -0x8000 <= r < 0x8000,
    {
        let v = self.imm16();
        if v >= 0x8000 {
            (v as i32) - 0x1_0000
        } else {
            v as i32
        }
    }

    /// 26-bit jump target.
    pub fn imm26(self) -> (r: u32)
        ensures
            r == self.0 & 0x3FF_FFFF,
            r < 0x400_0000,
    {
        proof {
            lemma_mask_bounds();
        }
        self.0 & 0x3FF_FFFF
    }
}

} // verus!

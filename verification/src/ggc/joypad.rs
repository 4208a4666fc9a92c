//! Joypad of the GG.
use vstd::prelude::*;
use crate::common::{button_index, Button};

verus! {

/// Low 4 bits of JOYP for a row of keys: a bit is 0 while its key is held.
pub open spec fn row_bits(keys: Seq<bool>, start: int) -> int {
    (if keys[start] { 0int } else { 1int }) + (if keys[start + 1] { 0int } else { 2int }) + (if keys[
        start + 2] { 0int } else { 4int }) + (if keys[start + 3] { 0int } else { 8int })
}

/// Value read from JOYP, with the row select bits as written.
pub open spec fn joyp_read(keys: Seq<bool>, joyp: u8) -> u8 {
    let sel = joyp % 64 / 16;
    if sel == 1 {
        (0xD0 + row_bits(keys, 0)) as u8
    } else if sel == 2 {
        (0xE0 + row_bits(keys, 4)) as u8
    } else {
        0xCF
    }
}

/// Joypad of the console.
pub struct Joypad {
    pub key_states: [bool; 8],
}

impl Joypad {
    /// No key is held.
    pub fn new() -> (j: Self)
        ensures
            forall|i: int| 0 <= i < 8 ==> !j.key_states[i],
    {
        Joypad { key_states: [false; 8] }
    }

    /// Read JOYP: the row selected by bits 4-5 (0x10: A, B, Select, Start;
    /// 0x20: directions), a bit cleared for each held key.
    pub fn read(&self, joyp: u8) -> (r: u8)
        ensures
            r == joyp_read(self.key_states@, joyp),
    {
        let sel = joyp & 0x30;
        proof {
            assert(joyp & 0x30 == (joyp % 64 / 16) * 16) by (bit_vector);
        }
        let row_start: usize = if sel == 0x10 {
            0
        } else if sel == 0x20 {
            4
        } else {
            return 0xCF;
        };
        let mut res: u8 = 0;
        let mut i: usize = 4;
        while i > 0
            invariant
                0 <= i <= 4,
                row_start == 0 || row_start == 4,
                res == high_bits(self.key_states@, row_start as int, i as int),
                i == 4 ==> res == 0,
                i == 3 ==> res < 2,
                i == 2 ==> res < 4,
                i == 1 ==> res < 8,
                res < 16,
            decreases i,
        {
            i = i - 1;
            res = res * 2 + if self.key_states[row_start + i] {
                0
            } else {
                1
            };
        }
        proof {
            lemma_high_bits(self.key_states@, row_start as int);
            reveal_with_fuel(high_bits, 5);
        }
        res + sel + 0xC0
    }

    /// Set the state of a button. Returns if the joypad interrupt is to be
    /// requested: when, with JOYP as given, some selected key reads as held.
    pub fn set(&mut self, button: Button, state: bool, joyp: u8) -> (irq: bool)
        ensures
            button_index(button) >= 8 ==> final(self).key_states == old(self).key_states && !irq,
            button_index(button) < 8 ==> final(self).key_states@ == old(
                self,
            ).key_states@.update(button_index(button), state) && irq == (joyp_read(
                final(self).key_states@,
                joyp,
            ) % 16 != 15),
    {
        let idx = button.index();
        if idx >= 8 {
            return false;  // GGA buttons
        }
        self.key_states[idx] = state;
        let read = self.read(joyp);
        read % 16 != 15
    }
}

/// Row bits of the keys from position `i` of the row on, shifted down so
/// that the key at `i` is bit 0.
pub open spec fn high_bits(keys: Seq<bool>, start: int, i: int) -> int
    decreases 4 - i,
{
    if i >= 4 {
        0
    } else {
        (if keys[start + i] { 0int } else { 1int }) + 2 * high_bits(keys, start, i + 1)
    }
}

/// Reading the row bits from the top gives the row bits.
proof fn lemma_high_bits(keys: Seq<bool>, start: int)
    ensures
        high_bits(keys, start, 0) == row_bits(keys, start),
        0 <= high_bits(keys, start, 4) < 1,
{
    reveal_with_fuel(high_bits, 5);
}

} // verus!

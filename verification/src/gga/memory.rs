//! Bus timing of the GGA: the wait cycles of each memory region, as the
//! WAITCNT register sets them for the cartridge, and the table of them that
//! every access looks up.
use vstd::prelude::*;

verus! {

/// Kind of a bus access.
#[derive(Copy, Clone, PartialEq, Eq, Structural, Debug)]
pub enum Access {
    /// Sequential: the address follows the previous access.
    Sequential,
    /// Non-sequential.
    NonSequential,
}

impl Access {
    /// Offset of the access kind into a wait time table.
    pub fn offset(self) -> (r: usize)
        ensures
            r == access_offset(self),
    {
        match self {
            Access::Sequential => 0,
            Access::NonSequential => 16,
        }
    }
}

/// Offset of an access kind into a wait time table.
pub open spec fn access_offset(ty: Access) -> int {
    match ty {
        Access::Sequential => 0,
        Access::NonSequential => 16,
    }
}

/// Wait cycles of a non-sequential cartridge access, by the two WAITCNT
/// bits of its wait state.
pub open spec fn ws_nonseq(i: u16) -> u16 {
    if i == 0 {
        4
    } else if i == 1 {
        3
    } else if i == 2 {
        2
    } else {
        8
    }
}

/// `n` bits of `v` from bit `at`.
pub open spec fn field(v: u16, at: u16, n: u16) -> u16 {
    ((v as int / pow2_16(at)) % pow2_16(n)) as u16
}

/// 2 to the power of `n`, for the shifts of a 16-bit register.
pub open spec fn pow2_16(n: u16) -> int
    decreases n,
{
    if n == 0 {
        1
    } else {
        2 * pow2_16((n - 1) as u16)
    }
}

/// Cycles an access of `width` bytes and kind `ty` to `addr` takes, with
/// WAITCNT set to `waitcnt`: EWRAM is slow, words to palette and VRAM take
/// two, the cartridge's ROM mirrors and SRAM follow WAITCNT, and all else
/// takes one.
pub open spec fn wait_cycles(waitcnt: u16, addr: u32, width: u32, ty: Access) -> u16 {
    if 0x0200_0000 <= addr <= 0x02FF_FFFF {
        if width == 4 {
            6
        } else {
            3
        }
    } else if 0x0500_0000 <= addr <= 0x06FF_FFFF && width == 4 {
        2
    } else if 0x0800_0000 <= addr <= 0x09FF_FFFF {
        let s = (2 - field(waitcnt, 4, 1)) as u16;
        let n = ws_nonseq(field(waitcnt, 2, 2));
        if ty == Access::Sequential {
            s
        } else if width == 4 {
            (n + s) as u16
        } else {
            n
        }
    } else if 0x0A00_0000 <= addr <= 0x0BFF_FFFF {
        let s = (4 - field(waitcnt, 7, 1) * 3) as u16;
        let n = ws_nonseq(field(waitcnt, 5, 2));
        if ty == Access::Sequential {
            s
        } else if width == 4 {
            (n + s) as u16
        } else {
            n
        }
    } else if 0x0C00_0000 <= addr <= 0x0DFF_FFFF {
        let s = (8 - field(waitcnt, 10, 1) * 7) as u16;
        let n = ws_nonseq(field(waitcnt, 8, 2));
        if ty == Access::Sequential {
            s
        } else if width == 4 {
            (n + s) as u16
        } else {
            n
        }
    } else if 0x0E00_0000 <= addr <= 0x0EFF_FFFF {
        ws_nonseq(field(waitcnt, 0, 2))
    } else {
        1
    }
}

fn ws_nonseq_exec(i: u16) -> (r: u16)
    requires
        i < 4,
    ensures
        r == ws_nonseq(i),
{
    match i {
        0 => 4,
        1 => 3,
        2 => 2,
        _ => 8,
    }
}

/// `n` (1 or 2) bits of `v` from bit `at`.
fn bits(v: u16, at: u16, n: u16) -> (r: u16)
    requires
        at <= 10,
        n == 1 || n == 2,
    ensures
        r == field(v, at, n),
        n == 1 ==> r < 2,
        n == 2 ==> r < 4,
{
    let mut x = v;
    let mut k: u16 = 0;
    while k < at
        invariant
            k <= at <= 10,
            x as int == v as int / pow2_16(k),
        decreases at - k,
    {
        proof {
            assert(pow2_16((k + 1) as u16) == 2 * pow2_16(k));
            lemma_pow2_16_pos(k);
            vstd::arithmetic::div_mod::lemma_div_denominator(v as int, pow2_16(k), 2);
        }
        x = x / 2;
        k += 1;
    }
    proof {
        assert(pow2_16(0) == 1);
        assert(pow2_16(1) == 2);
        assert(pow2_16(2) == 4);
    }
    if n == 1 {
        x % 2
    } else {
        x % 4
    }
}

proof fn lemma_pow2_16_pos(n: u16)
    ensures
        pow2_16(n) > 0,
    decreases n,
{
    if n > 0 {
        lemma_pow2_16_pos((n - 1) as u16);
    }
}

/// Compute the cycles an access of `W` bytes of kind `ty` to `addr` takes,
/// with WAITCNT set to `waitcnt`.
pub fn calc_wait_time<const W: u32>(waitcnt: u16, addr: u32, ty: Access) -> (r: u16)
    ensures
        r == wait_cycles(waitcnt, addr, W, ty),
{
    if 0x0200_0000 <= addr && addr <= 0x02FF_FFFF {
        if W == 4 {
            6
        } else {
            3
        }
    } else if 0x0500_0000 <= addr && addr <= 0x06FF_FFFF && W == 4 {
        2
    } else if 0x0800_0000 <= addr && addr <= 0x09FF_FFFF {
        let s = 2 - bits(waitcnt, 4, 1);
        let n = ws_nonseq_exec(bits(waitcnt, 2, 2));
        if ty == Access::Sequential {
            s
        } else if W == 4 {
            n + s
        } else {
            n
        }
    } else if 0x0A00_0000 <= addr && addr <= 0x0BFF_FFFF {
        let s = 4 - bits(waitcnt, 7, 1) * 3;
        let n = ws_nonseq_exec(bits(waitcnt, 5, 2));
        if ty == Access::Sequential {
            s
        } else if W == 4 {
            n + s
        } else {
            n
        }
    } else if 0x0C00_0000 <= addr && addr <= 0x0DFF_FFFF {
        let s = 8 - bits(waitcnt, 10, 1) * 7;
        let n = ws_nonseq_exec(bits(waitcnt, 8, 2));
        if ty == Access::Sequential {
            s
        } else if W == 4 {
            n + s
        } else {
            n
        }
    } else if 0x0E00_0000 <= addr && addr <= 0x0EFF_FFFF {
        ws_nonseq_exec(bits(waitcnt, 0, 2))
    } else {
        1
    }
}

/// The wait cycle tables of the bus, per region (the top byte of an
/// address, modulo 16) and access kind: one for word accesses, one for
/// the others.
pub struct Memory {
    pub wait_word: [u16; 32],
    pub wait_other: [u16; 32],
}

impl Memory {
    /// The tables hold the wait cycles that WAITCNT value `waitcnt` gives
    /// to the start of each region.
    pub open spec fn caches(&self, waitcnt: u16) -> bool {
        forall|i: int, ty: Access|
            0 <= i < 16 ==> {
                &&& #[trigger] self.wait_word[i + access_offset(ty)] == wait_cycles(
                    waitcnt,
                    (i * 0x100_0000) as u32,
                    4,
                    ty,
                )
                &&& self.wait_other[i + access_offset(ty)] == wait_cycles(waitcnt, (i * 0x100_0000) as u32, 2, ty)
            }
    }

    /// Tables for WAITCNT value `waitcnt`.
    pub fn new(waitcnt: u16) -> (m: Self)
        ensures
            m.caches(waitcnt),
    {
        let mut m = Memory { wait_word: [1; 32], wait_other: [1; 32] };
        m.update_wait_times(waitcnt);
        m
    }

    /// Recompute the tables after WAITCNT was set to `waitcnt`.
    pub fn update_wait_times(&mut self, waitcnt: u16)
        ensures
            final(self).caches(waitcnt),
    {
        let mut i: usize = 0;
        while i < 16
            invariant
                i <= 16,
                forall|j: int|
                    0 <= j < i ==> {
                        &&& #[trigger] self.wait_word[j] == wait_cycles(waitcnt, (j * 0x100_0000) as u32, 4, Access::Sequential)
                        &&& self.wait_other[j] == wait_cycles(waitcnt, (j * 0x100_0000) as u32, 2, Access::Sequential)
                        &&& self.wait_word[j + 16] == wait_cycles(waitcnt, (j * 0x100_0000) as u32, 4, Access::NonSequential)
                        &&& self.wait_other[j + 16] == wait_cycles(
                            waitcnt,
                            (j * 0x100_0000) as u32,
                            2,
                            Access::NonSequential,
                        )
                    },
            decreases 16 - i,
        {
            let ghost word0 = self.wait_word;
            let ghost other0 = self.wait_other;
            let addr = i as u32 * 0x100_0000;
            self.wait_word[i] = calc_wait_time::<4>(waitcnt, addr, Access::Sequential);
            self.wait_other[i] = calc_wait_time::<2>(waitcnt, addr, Access::Sequential);
            self.wait_word[i + 16] = calc_wait_time::<4>(waitcnt, addr, Access::NonSequential);
            self.wait_other[i + 16] = calc_wait_time::<2>(waitcnt, addr, Access::NonSequential);
            proof {
                assert forall|j: int| 0 <= j < i + 1 implies {
                    &&& #[trigger] self.wait_word[j] == wait_cycles(waitcnt, (j * 0x100_0000) as u32, 4, Access::Sequential)
                    &&& self.wait_other[j] == wait_cycles(waitcnt, (j * 0x100_0000) as u32, 2, Access::Sequential)
                    &&& self.wait_word[j + 16] == wait_cycles(waitcnt, (j * 0x100_0000) as u32, 4, Access::NonSequential)
                    &&& self.wait_other[j + 16] == wait_cycles(waitcnt, (j * 0x100_0000) as u32, 2, Access::NonSequential)
                } by {
                    if j < i {
                        assert(word0[j] == wait_cycles(waitcnt, (j * 0x100_0000) as u32, 4, Access::Sequential));
                        assert(self.wait_word[j] == word0[j] && self.wait_other[j] == other0[j]);
                        assert(self.wait_word[j + 16] == word0[j + 16] && self.wait_other[j + 16] == other0[j + 16]);
                    }
                }
            }
            i += 1;
        }
        proof {
            assert forall|j: int, ty: Access| 0 <= j < 16 implies {
                &&& #[trigger] self.wait_word[j + access_offset(ty)] == wait_cycles(
                    waitcnt,
                    (j * 0x100_0000) as u32,
                    4,
                    ty,
                )
                &&& self.wait_other[j + access_offset(ty)] == wait_cycles(waitcnt, (j * 0x100_0000) as u32, 2, ty)
            } by {
                assert(self.wait_word[j] == wait_cycles(waitcnt, (j * 0x100_0000) as u32, 4, Access::Sequential));
            }
        }
    }

    /// Wait cycles of an access of `W` bytes of kind `ty` to `addr`, from
    /// the table of its region.
    pub fn wait_time<const W: u32>(&self, addr: u32, ty: Access) -> (r: u16)
        ensures
            forall|waitcnt: u16|
                #[trigger] self.caches(waitcnt) ==> r == wait_cycles(
                    waitcnt,
                    (((addr / 0x100_0000) % 16) * 0x100_0000) as u32,
                    W,
                    ty,
                ),
    {
        proof {
            assert((addr >> 24u32) & 0xF == (addr / 0x100_0000) % 16) by (bit_vector);
        }
        let idx = ((addr >> 24) & 0xF) as usize + ty.offset();
        let r = if W == 4 {
            self.wait_word[idx]
        } else {
            self.wait_other[idx]
        };
        proof {
            let i = ((addr / 0x100_0000) % 16) as int;
            assert forall|waitcnt: u16| #[trigger] self.caches(waitcnt) implies r == wait_cycles(
                waitcnt,
                (i * 0x100_0000) as u32,
                W,
                ty,
            ) by {
                assert(self.wait_word[i + access_offset(ty)] == wait_cycles(waitcnt, (i * 0x100_0000) as u32, 4, ty));
            }
        }
        r
    }
}

/// Every region is aligned to 16 MiB: below 0x1000_0000 an address waits
/// as long as the start of its region, so the table that `wait_time` reads
/// gives every access the cycles that WAITCNT sets for its address.
pub proof fn lemma_wait_time_is_calc(waitcnt: u16, addr: u32, width: u32, ty: Access)
    requires
        addr < 0x1000_0000,
    ensures
        wait_cycles(waitcnt, (((addr / 0x100_0000) % 16) * 0x100_0000) as u32, width, ty) == wait_cycles(
            waitcnt,
            addr,
            width,
            ty,
        ),
{
}

} // verus!

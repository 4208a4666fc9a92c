//! Cache of decoded instruction blocks, by the address they start at.
//! Blocks can start in BIOS, IWRAM and ROM. IWRAM is writable, so its
//! entries are tracked by page: a write to a page drops every block that
//! starts in it.
use vstd::prelude::*;

verus! {

/// Size of an IWRAM page, in halfword locations.
pub const IWRAM_PAGE_SIZE: u32 = 128;
/// Last address of IWRAM that blocks are cached for.
pub const IWRAM_END: u32 = 0x300_7BFF;

/// A decoded instruction: the instruction, its handler and its timing.
pub struct CachedInst<I, H> {
    pub inst: I,
    pub handler: H,
    pub sn_cycles: u16,
}

/// Memory region and location (in halfwords) of the block cache slot for
/// an address: 0 for BIOS, 1 for IWRAM, 2 for ROM.
pub open spec fn slot(pc: u32) -> Option<(int, int)> {
    if pc <= 0x3FFF {
        Some((0, pc as int / 2))
    } else if 0x300_0000 <= pc <= IWRAM_END {
        Some((1, ((pc & 0x7FFF) >> 1u32) as int))
    } else if 0x800_0000 <= pc <= 0xDFF_FFFF {
        Some((2, (pc - 0x800_0000) / 2))
    } else {
        None
    }
}

/// If an address is in the IWRAM region of the cache.
pub open spec fn in_iwram(addr: u32) -> bool {
    0x300_0000 <= addr <= IWRAM_END
}

/// IWRAM page of an address.
pub open spec fn page_of(addr: u32) -> int {
    ((addr & 0x7FFF) >> 1u32) as int / 128
}

/// The block cache.
pub struct Cache<E> {
    pub bios: Vec<Option<E>>,
    pub rom: Vec<Option<E>>,
    pub iwram: Vec<Option<E>>,
    /// For each IWRAM page, the locations that have been filled in it.
    pub iwram_cache_indices: Vec<Vec<u32>>,
}

impl<E: Clone> Cache<E> {
    /// The slots of a region.
    pub open spec fn region(&self, r: int) -> Seq<Option<E>> {
        if r == 0 {
            self.bios@
        } else if r == 1 {
            self.iwram@
        } else {
            self.rom@
        }
    }

    /// The block cached for an address.
    pub open spec fn lookup(&self, pc: u32) -> Option<E> {
        match slot(pc) {
            Some((r, i)) => if i < self.region(r).len() {
                self.region(r)[i]
            } else {
                None
            },
            None => None,
        }
    }

    /// Every recorded location lies in its page; and IWRAM is empty, or
    /// every filled IWRAM location is recorded for its page.
    pub open spec fn wf(&self) -> bool {
        &&& self.iwram_cache_indices@.len() <= 128
        &&& forall|p: int, k: int|
            0 <= p < self.iwram_cache_indices@.len() && 0 <= k
                < self.iwram_cache_indices@[p]@.len() ==> {
                let l = #[trigger] self.iwram_cache_indices@[p]@[k];
                l < 0x4000 && l / 128 == p
            }
        &&& self.iwram@.len() == 0 || {
            &&& self.iwram@.len() == 0x4000
            &&& self.iwram_cache_indices@.len() == 128
            &&& forall|l: int|
                0 <= l < 0x4000 && (#[trigger] self.iwram@[l]) is Some
                    ==> self.iwram_cache_indices@[l / 128]@.contains(l as u32)
        }
    }

    /// An empty cache; caching is off until `init`.
    pub fn new() -> (c: Self)
        ensures
            c.wf(),
            c.bios@.len() == 0 && c.iwram@.len() == 0 && c.rom@.len() == 0,
    {
        Cache { bios: Vec::new(), rom: Vec::new(), iwram: Vec::new(), iwram_cache_indices: Vec::new() }
    }

    /// The block cached for an address, if any.
    pub fn get(&self, pc: u32) -> (r: Option<E>)
        ensures
            self.lookup(pc) is None ==> r is None,
            self.lookup(pc) is Some ==> r is Some && cloned::<E>(
                self.lookup(pc).unwrap(),
                r.unwrap(),
            ),
    {
        if pc <= 0x3FFF {
            let i = (pc / 2) as usize;
            if i < self.bios.len() {
                self.bios[i].clone()
            } else {
                None
            }
        } else if 0x300_0000 <= pc && pc <= IWRAM_END {
            let i = ((pc & 0x7FFF) >> 1) as usize;
            if i < self.iwram.len() {
                self.iwram[i].clone()
            } else {
                None
            }
        } else if 0x800_0000 <= pc && pc <= 0xDFF_FFFF {
            let i = ((pc - 0x800_0000) / 2) as usize;
            if i < self.rom.len() {
                self.rom[i].clone()
            } else {
                None
            }
        } else {
            None
        }
    }

    /// Cache a block for an address. Addresses outside the cached regions
    /// are ignored.
    pub fn put(&mut self, pc: u32, entry: E)
        requires
            old(self).wf(),
            slot(pc) matches Some((r, i)) ==> i < old(self).region(r).len(),
        ensures
            final(self).wf(),
            forall|q: u32|
                #[trigger] final(self).lookup(q) == if slot(q) is Some && slot(q) == slot(pc) {
                    Some(entry)
                } else {
                    old(self).lookup(q)
                },
            final(self).bios@.len() == old(self).bios@.len(),
            final(self).iwram@.len() == old(self).iwram@.len(),
            final(self).rom@.len() == old(self).rom@.len(),
    {
        if pc <= 0x3FFF {
            self.bios.set((pc / 2) as usize, Some(entry));
        } else if 0x300_0000 <= pc && pc <= IWRAM_END {
            let location = (pc & 0x7FFF) >> 1;
            proof {
                assert((pc & 0x7FFF) >> 1u32 < 0x4000) by (bit_vector);
            }
            let ghost old_self = *self;
            self.iwram.set(location as usize, Some(entry));
            let page = (location / IWRAM_PAGE_SIZE) as usize;
            self.iwram_cache_indices[page].push(location);
            proof {
                assert forall|l: int|
                    0 <= l < 0x4000 && (#[trigger] self.iwram@[l]) is Some implies self.iwram_cache_indices@[l
                        / 128]@.contains(l as u32) by {
                    if l != location {
                        assert(old_self.iwram@[l] is Some);
                        let k = choose|k: int|
                            #![trigger old_self.iwram_cache_indices@[l / 128]@[k]]
                            0 <= k < old_self.iwram_cache_indices@[l / 128]@.len()
                                && old_self.iwram_cache_indices@[l / 128]@[k] == l as u32;
                        assert(self.iwram_cache_indices@[l / 128]@[k] == l as u32);
                    } else {
                        let n = old_self.iwram_cache_indices@[page as int]@.len();
                        assert(self.iwram_cache_indices@[l / 128]@[n as int] == l as u32);
                    }
                }
                assert forall|p: int, k: int|
                    0 <= p < self.iwram_cache_indices@.len() && 0 <= k
                        < self.iwram_cache_indices@[p]@.len() implies {
                    let l = #[trigger] self.iwram_cache_indices@[p]@[k];
                    l < 0x4000 && l / 128 == p
                } by {
                    if p != page || k < old_self.iwram_cache_indices@[p]@.len() {
                        assert(self.iwram_cache_indices@[p]@[k]
                            == old_self.iwram_cache_indices@[p]@[k]);
                    }
                }
            }
        } else if 0x800_0000 <= pc && pc <= 0xDFF_FFFF {
            self.rom.set(((pc - 0x800_0000) / 2) as usize, Some(entry));
        }
    }

    /// If a block can be cached for an address.
    pub fn can_make_cache(pc: u32) -> (r: bool)
        ensures
            r == (pc < 0x3FFF || in_iwram(pc) || 0x800_0000 <= pc <= 0xDFF_FFFF),
    {
        pc < 0x3FFF || (0x300_0000 <= pc && pc <= IWRAM_END) || (0x800_0000 <= pc && pc
            <= 0xDFF_FFFF)
    }

    /// Make room in every region: BIOS, IWRAM, and ROM for a cart of the
    /// given size. Slots that exist keep their blocks.
    pub fn init(&mut self, cart_size: usize)
        requires
            old(self).wf(),
        ensures
            final(self).wf(),
            final(self).bios@.len() == 0x2000,
            final(self).iwram@.len() == 0x4000,
            final(self).rom@.len() == cart_size / 2,
            forall|q: u32|
                (slot(q) matches Some((r, i)) && i < final(self).region(r).len())
                    ==> #[trigger] final(self).lookup(q) == old(self).lookup(q),
    {
        let ghost old_self = *self;
        Self::resize(&mut self.bios, 0x2000);
        let was_empty = self.iwram.len() == 0;
        Self::resize(&mut self.iwram, 0x4000);
        let ghost bios = self.bios;
        let ghost iwram = self.iwram;
        let mut k = self.iwram_cache_indices.len();
        while k < 128
            invariant
                self.bios == bios && self.iwram == iwram && self.rom == old_self.rom,
                k == self.iwram_cache_indices@.len(),
                k <= 128,
                was_empty ==> forall|p: int| 0 <= p < self.iwram_cache_indices@.len()
                    && p >= old_self.iwram_cache_indices@.len() ==> (#[trigger] self.iwram_cache_indices@[p])@.len() == 0,
                self.iwram_cache_indices@.subrange(0, old_self.iwram_cache_indices@.len() as int)
                    == old_self.iwram_cache_indices@,
                old_self.iwram_cache_indices@.len() <= k,
            decreases 128 - k,
        {
            self.iwram_cache_indices.push(Vec::new());
            k = k + 1;
        }
        Self::resize(&mut self.rom, cart_size >> 1);
        proof {
            assert(cart_size >> 1usize == cart_size / 2) by (bit_vector);
            if was_empty {
                assert forall|l: int| 0 <= l < 0x4000 implies !(#[trigger] self.iwram@[l] is Some) by {}
                assert forall|p: int, k: int|
                    0 <= p < self.iwram_cache_indices@.len() && 0 <= k
                        < self.iwram_cache_indices@[p]@.len() implies {
                    let l = #[trigger] self.iwram_cache_indices@[p]@[k];
                    l < 0x4000 && l / 128 == p
                } by {
                    if p < old_self.iwram_cache_indices@.len() {
                        assert(self.iwram_cache_indices@[p] == old_self.iwram_cache_indices@[p]);
                    }
                }
            } else {
                assert(self.iwram_cache_indices@ =~= old_self.iwram_cache_indices@);
            }
        }
    }

    /// Grow or shrink a region to `len` slots; new slots are empty.
    fn resize(v: &mut Vec<Option<E>>, len: usize)
        ensures
            final(v)@.len() == len,
            forall|i: int| 0 <= i < len && i < old(v)@.len() ==> final(v)@[i] == old(v)@[i],
            forall|i: int| old(v)@.len() <= i < len ==> (#[trigger] final(v)@[i]) is None,
    {
        if v.len() > len {
            v.truncate(len);
        }
        while v.len() < len
            invariant
                v@.len() <= len || v@.len() == old(v)@.len(),
                v@.len() <= len,
                v@.len() >= old(v)@.len() || v@.len() == len,
                forall|i: int| 0 <= i < v@.len() && i < old(v)@.len() ==> v@[i] == old(v)@[i],
                forall|i: int| old(v)@.len() <= i < v@.len() ==> (#[trigger] v@[i]) is None,
            decreases len - v@.len(),
        {
            v.push(None);
        }
    }

    /// If a block has to end at an address: at each IWRAM page boundary.
    pub fn force_end_block(pc: u32) -> (r: bool)
        ensures
            r == (0x300_0000 <= pc <= 0x3FF_FFFF && pc & 127 == 0),
    {
        0x300_0000 <= pc && pc <= 0x3FF_FFFF && (pc & (IWRAM_PAGE_SIZE - 1)) == 0
    }

    /// A write to memory: drop every block that starts in the IWRAM page
    /// written to.
    pub fn write(&mut self, addr: u32)
        requires
            old(self).wf(),
        ensures
            final(self).wf(),
            final(self).bios == old(self).bios && final(self).rom == old(self).rom,
            final(self).iwram@.len() == old(self).iwram@.len(),
            old(self).iwram@.len() != 0 && in_iwram(addr) ==> forall|q: u32|
                #[trigger] final(self).lookup(q) == if in_iwram(q) && page_of(q) == page_of(addr) {
                    None
                } else {
                    old(self).lookup(q)
                },
            !(old(self).iwram@.len() != 0 && in_iwram(addr)) ==> forall|q: u32|
                #[trigger] final(self).lookup(q) == old(self).lookup(q),
    {
        if self.iwram.len() != 0 && 0x300_0000 <= addr && addr <= IWRAM_END {
            let location = (addr & 0x7FFF) >> 1;
            proof {
                assert((addr & 0x7FFF) >> 1u32 < 0x4000) by (bit_vector);
            }
            let page = (location / IWRAM_PAGE_SIZE) as usize;
            let ghost old_self = *self;
            let ghost entries = self.iwram_cache_indices@[page as int]@;
            let mut i: usize = 0;
            while i < self.iwram_cache_indices[page].len()
                invariant
                    page < 128,
                    old_self.wf(),
                    old_self.iwram@.len() == 0x4000,
                    self.iwram@.len() == 0x4000,
                    self.iwram_cache_indices == old_self.iwram_cache_indices,
                    entries == self.iwram_cache_indices@[page as int]@,
                    i <= entries.len(),
                    self.bios == old_self.bios && self.rom == old_self.rom,
                    forall|l: int|
                        0 <= l < 0x4000 ==> #[trigger] self.iwram@[l] == if exists|k: int|
                            #![trigger entries[k]] 0 <= k < i && entries[k] == l as u32 {
                            None
                        } else {
                            old_self.iwram@[l]
                        },
                decreases entries.len() - i,
            {
                let entry = self.iwram_cache_indices[page][i];
                proof {
                    assert(entries[i as int] == entry);
                }
                self.iwram.set(entry as usize, None);
                proof {
                    assert forall|l: int| 0 <= l < 0x4000 implies #[trigger] self.iwram@[l]
                        == if exists|k: int| #![trigger entries[k]] 0 <= k < i + 1 && entries[k] == l as u32 {
                        None
                    } else {
                        old_self.iwram@[l]
                    } by {
                        if l == entry {
                            assert(entries[i as int] == l as u32);
                        } else if exists|k: int| #![trigger entries[k]] 0 <= k < i + 1 && entries[k] == l as u32 {
                            let k = choose|k: int| #![trigger entries[k]] 0 <= k < i + 1 && entries[k] == l as u32;
                            assert(0 <= k < i);
                        }
                    }
                }
                i = i + 1;
            }
            self.iwram_cache_indices[page].clear();
            proof {
                // Every filled location of the page was recorded, so it is
                // now empty; other pages are untouched.
                assert forall|l: int| 0 <= l < 0x4000 implies #[trigger] self.iwram@[l] == if l
                    / 128 == page {
                    None
                } else {
                    old_self.iwram@[l]
                } by {
                    if l / 128 == page {
                        if old_self.iwram@[l] is Some {
                            assert(entries.contains(l as u32));
                        }
                    } else if exists|k: int| #![trigger entries[k]] 0 <= k < i && entries[k] == l as u32 {
                        let k = choose|k: int| #![trigger entries[k]] 0 <= k < i && entries[k] == l as u32;
                        assert(entries[k] / 128 == page);
                    }
                }
                assert forall|q: u32| #[trigger] self.lookup(q) == if in_iwram(q) && page_of(q)
                    == page_of(addr) {
                    None
                } else {
                    old_self.lookup(q)
                } by {
                    if in_iwram(q) {
                        assert((q & 0x7FFF) >> 1u32 < 0x4000) by (bit_vector);
                    }
                }
                assert forall|l: int|
                    0 <= l < 0x4000 && (#[trigger] self.iwram@[l]) is Some implies self.iwram_cache_indices@[l
                        / 128]@.contains(l as u32) by {
                    assert(old_self.iwram@[l] is Some);
                    assert(self.iwram_cache_indices@[l / 128] == old_self.iwram_cache_indices@[l
                        / 128]);
                }
                assert forall|p: int, k: int|
                    0 <= p < self.iwram_cache_indices@.len() && 0 <= k
                        < self.iwram_cache_indices@[p]@.len() implies {
                    let l = #[trigger] self.iwram_cache_indices@[p]@[k];
                    l < 0x4000 && l / 128 == p
                } by {
                    assert(self.iwram_cache_indices@[p] == old_self.iwram_cache_indices@[p]);
                }
            }
        }
    }

    /// Drop every ROM block (the ROM's wait states changed), unless caching
    /// is off.
    pub fn invalidate_rom(&mut self)
        requires
            old(self).wf(),
        ensures
            final(self).wf(),
            final(self).bios == old(self).bios && final(self).iwram == old(self).iwram,
            final(self).iwram_cache_indices == old(self).iwram_cache_indices,
            final(self).rom@.len() == old(self).rom@.len(),
            old(self).bios@.len() == 0 ==> final(self).rom == old(self).rom,
            old(self).bios@.len() != 0 ==> forall|i: int|
                0 <= i < final(self).rom@.len() ==> (#[trigger] final(self).rom@[i]) is None,
    {
        if self.bios.len() == 0 {
            // Caching is disabled
            return;
        }
        let mut i: usize = 0;
        while i < self.rom.len()
            invariant
                i <= self.rom@.len(),
                self.rom@.len() == old(self).rom@.len(),
                self.bios == old(self).bios && self.iwram == old(self).iwram,
                self.iwram_cache_indices == old(self).iwram_cache_indices,
                forall|j: int| 0 <= j < i ==> (#[trigger] self.rom@[j]) is None,
            decreases self.rom@.len() - i,
        {
            self.rom.set(i, None);
            i = i + 1;
        }
    }
}

} // verus!

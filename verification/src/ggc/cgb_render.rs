//! Drawing a line of a CGB background or window from its tile map.
use vstd::prelude::*;
use crate::common::Colour;
use crate::ggc::cgb::{Cgb, CgbColour};

verus! {

/// Bit `x` (0 to 7) of a byte.
pub open spec fn bit_of(v: u8, x: int) -> int {
    (v as int / pow2_8(x)) % 2
}

/// 2 to the power of `x`, for the bits of a byte.
pub open spec fn pow2_8(x: int) -> int {
    if x <= 0 {
        1
    } else if x == 1 {
        2
    } else if x == 2 {
        4
    } else if x == 3 {
        8
    } else if x == 4 {
        16
    } else if x == 5 {
        32
    } else if x == 6 {
        64
    } else {
        128
    }
}

fn bit(v: u8, x: u8) -> (r: u8)
    requires
        x < 8,
    ensures
        r == bit_of(v, x as int),
{
    let p: u8 = match x {
        0 => 1,
        1 => 2,
        2 => 4,
        3 => 8,
        4 => 16,
        5 => 32,
        6 => 64,
        _ => 128,
    };
    (v / p) % 2
}

/// Offset in VRAM of the data of tile `idx`: tiles 0 to 255 from 0, or,
/// with signed tile numbers, -128 to 127 around 0x1000.
pub open spec fn tile_base(idx: u8, signed_tiles: bool) -> int {
    if signed_tiles {
        0x1000 + (if idx >= 128 {
            idx - 256
        } else {
            idx as int
        }) * 16
    } else {
        idx * 16
    }
}

/// The map entry after `a`: the next one, or with `wrap` the first of the
/// row after its last.
pub open spec fn next_map_addr(a: int, wrap: bool) -> int {
    if wrap && a % 32 == 31 {
        a - 31
    } else {
        a + 1
    }
}

/// Map entry of the `n`th tile drawn, from the first at `t0`.
pub open spec fn map_addr_at(t0: int, n: nat, wrap: bool) -> int
    decreases n,
{
    if n == 0 {
        t0
    } else {
        next_map_addr(map_addr_at(t0, (n - 1) as nat, wrap), wrap)
    }
}

/// Attributes of the map entry at `a` (in VRAM bank 1).
pub open spec fn attr_at(vram: Seq<u8>, a: int) -> u8 {
    vram[0x2000 + a % 0x2000]
}

/// Offset of the line of the tile at map entry `a` that map line
/// `map_line` shows: flipped vertically by attribute bit 6, in the bank
/// of attribute bit 3.
pub open spec fn tile_line_addr(vram: Seq<u8>, a: int, map_line: u8, signed_tiles: bool) -> int {
    let attr = attr_at(vram, a);
    let y = if bit_of(attr, 6) == 1 {
        7 - map_line % 8
    } else {
        (map_line % 8) as int
    };
    tile_base(vram[a], signed_tiles) + y * 2 + bit_of(attr, 3) * 0x2000
}

/// The tile line read for a map entry lies in the VRAM bank that bit 3 of
/// its attributes selects: in bank 1 (from 0x2000) exactly when the bit is
/// set. Within the bank it is one of the tile's eight lines of two bytes:
/// the map line's row of the tile, counted from the bottom when bit 6
/// flips the tile vertically. Signed tile numbers 128 to 255 name the same
/// tiles as unsigned ones; the others lie 0x1000 further on.
pub proof fn lemma_tile_line_bank(vram: Seq<u8>, a: int, map_line: u8, signed_tiles: bool)
    requires
        vram.len() == 0x4000,
        0 <= a < 0x4000,
    ensures
        tile_line_addr(vram, a, map_line, signed_tiles) >= 0x2000 <==> bit_of(attr_at(vram, a), 3) == 1,
        0 <= tile_line_addr(vram, a, map_line, signed_tiles) < 0x4000,
        tile_line_addr(vram, a, map_line, signed_tiles) % 2 == 0,
        tile_line_addr(vram, a, map_line, signed_tiles) % 0x2000 - tile_base(vram[a], signed_tiles) == 2
            * if bit_of(attr_at(vram, a), 6) == 1 {
            7 - map_line % 8
        } else {
            (map_line % 8) as int
        },
        tile_base(vram[a], true) == tile_base(vram[a], false) + if vram[a] >= 128 {
            0int
        } else {
            0x1000
        },
{
    let attr = attr_at(vram, a);
    assert(0 <= bit_of(attr, 3) <= 1);
    assert(0 <= bit_of(attr, 6) <= 1);
}

/// The map entry at `a` and its tile's line lie in VRAM.
pub open spec fn entry_ok(vram: Seq<u8>, a: int, map_line: u8, signed_tiles: bool) -> bool {
    &&& 0 <= a < 0x4000
    &&& tile_line_addr(vram, a, map_line, signed_tiles) + 1 < 0x4000
}

/// Colour index (0 to 3) of pixel `tx` of the tile at map entry `a`,
/// flipped horizontally by attribute bit 5.
pub open spec fn colour_index(vram: Seq<u8>, a: int, map_line: u8, signed_tiles: bool, tx: int) -> int {
    let attr = attr_at(vram, a);
    let x = if bit_of(attr, 5) == 1 {
        tx
    } else {
        7 - tx
    };
    let d = tile_line_addr(vram, a, map_line, signed_tiles);
    bit_of(vram[d + 1], x) * 2 + bit_of(vram[d], x)
}

/// Map entry of pixel `q` of the line, drawn from `start_x` with the map
/// starting at `t0` and scroll `scroll_x`.
pub open spec fn px_entry(t0: int, wrap: bool, scroll_x: u8, start_x: u8, q: int) -> int {
    map_addr_at(t0, ((scroll_x % 8 + q - start_x) / 8) as nat, wrap)
}

/// Colour index of pixel `q` of the line (see `px_entry`).
pub open spec fn px_index(
    vram: Seq<u8>,
    t0: int,
    wrap: bool,
    scroll_x: u8,
    start_x: u8,
    map_line: u8,
    signed_tiles: bool,
    q: int,
) -> int {
    colour_index(vram, px_entry(t0, wrap, scroll_x, start_x, q), map_line, signed_tiles, (scroll_x % 8 + q - start_x) % 8)
}

/// Pixel `q` of the line as drawn: the colour of its tile's palette entry,
/// occupied if its colour index is not 0 and the background is enabled,
/// unavailable to objects if also the tile has priority.
pub open spec fn pixel_drawn(
    px: Seq<Colour>,
    occ: Seq<bool>,
    occ0: Seq<bool>,
    unav: Seq<bool>,
    pals: Seq<CgbColour>,
    vram: Seq<u8>,
    t0: int,
    wrap: bool,
    scroll_x: u8,
    start_x: u8,
    map_line: u8,
    signed_tiles: bool,
    bg_en: bool,
    q: int,
) -> bool {
    let attr = attr_at(vram, px_entry(t0, wrap, scroll_x, start_x, q));
    let ci = px_index(vram, t0, wrap, scroll_x, start_x, map_line, signed_tiles, q);
    &&& px[q] == pals[(attr % 8) * 4 + ci].colour
    &&& occ[q] == (occ0[q] || (ci != 0 && bg_en))
    &&& unav[q] == (ci != 0 && bit_of(attr, 7) == 1 && bg_en)
}

/// Pixel `q` of the line is as it was.
pub open spec fn pixel_kept(
    px: Seq<Colour>,
    px0: Seq<Colour>,
    occ: Seq<bool>,
    occ0: Seq<bool>,
    unav: Seq<bool>,
    unav0: Seq<bool>,
    q: int,
) -> bool {
    px[q] == px0[q] && occ[q] == occ0[q] && unav[q] == unav0[q]
}

impl Cgb {
    /// Draw pixels `start_x` to `end_x` (exclusive) of a line of a
    /// background or window on CGB: from the tile map at `map_addr`, map
    /// line `map_line`, horizontal scroll `scroll_x`; with
    /// `correct_tile_addr` the map wraps within its row. Each pixel gets
    /// the colour of its tile's background palette (attribute bits 0-2);
    /// a non-zero colour marks the pixel as occupied if the background is
    /// enabled (`bg_en`), and as unavailable to objects if the tile has
    /// priority (attribute bit 7) too.
    #[verifier::rlimit(60)]
    pub fn cgb_render_bg_or_window(
        &mut self,
        vram: &[u8; 0x4000],
        line_px: &mut [Colour; 160],
        bg_occupied: &mut [bool; 160],
        bg_en: bool,
        signed_tiles: bool,
        scroll_x: u8,
        start_x: u8,
        end_x: u8,
        map_addr: u16,
        map_line: u8,
        correct_tile_addr: bool,
    )
        requires
            start_x <= end_x <= 160,
            forall|n: nat|
                n <= (scroll_x % 8 + end_x - start_x) / 8 ==> #[trigger] entry_ok(
                    vram@,
                    map_addr_at(map_addr + (map_line / 8) * 0x20 + scroll_x / 8, n, correct_tile_addr),
                    map_line,
                    signed_tiles,
                ),
        ensures
            forall|q: int|
                start_x <= q < end_x ==> #[trigger] pixel_drawn(
                    final(line_px)@,
                    final(bg_occupied)@,
                    old(bg_occupied)@,
                    final(self).unavailable_pixels@,
                    old(self).bg_palettes@,
                    vram@,
                    map_addr + (map_line / 8) * 0x20 + scroll_x / 8,
                    correct_tile_addr,
                    scroll_x,
                    start_x,
                    map_line,
                    signed_tiles,
                    bg_en,
                    q,
                ),
            forall|q: int|
                0 <= q < 160 && !(start_x <= q < end_x) ==> #[trigger] pixel_kept(
                    final(line_px)@,
                    old(line_px)@,
                    final(bg_occupied)@,
                    old(bg_occupied)@,
                    final(self).unavailable_pixels@,
                    old(self).unavailable_pixels@,
                    q,
                ),
            *final(self) == (Cgb { unavailable_pixels: final(self).unavailable_pixels, ..*old(self) }),
    {
        let ghost t0: int = map_addr + (map_line / 8) * 0x20 + scroll_x / 8;
        let mut tile_x: u8 = scroll_x % 8;
        proof {
            assert(entry_ok(vram@, map_addr_at(t0, 0, correct_tile_addr), map_line, signed_tiles));
        }
        let mut tile_addr: u16 = map_addr + (map_line / 8) as u16 * 0x20 + (scroll_x / 8) as u16;
        let ghost mut n: nat = 0;
        let mut attributes = vram[0x2000 + (tile_addr as usize % 0x2000)];
        let mut data = self.tile_line(vram, tile_addr, map_line, signed_tiles);
        let mut high = vram[data + 1];
        let mut low = vram[data];
        let mut p: u8 = start_x;
        while p < end_x
            invariant
                start_x <= p <= end_x <= 160,
                tile_x < 8,
                scroll_x % 8 + p - start_x == n * 8 + tile_x,
                n <= (scroll_x % 8 + end_x - start_x) / 8,
                tile_addr == map_addr_at(t0, n, correct_tile_addr),
                forall|m: nat|
                    m <= (scroll_x % 8 + end_x - start_x) / 8 ==> #[trigger] entry_ok(
                        vram@,
                        map_addr_at(t0, m, correct_tile_addr),
                        map_line,
                        signed_tiles,
                    ),
                attributes == attr_at(vram@, tile_addr as int),
                data == tile_line_addr(vram@, tile_addr as int, map_line, signed_tiles),
                data + 1 < 0x4000,
                high == vram@[data + 1] && low == vram@[data as int],
                *self == (Cgb { unavailable_pixels: self.unavailable_pixels, ..*old(self) }),
                forall|q: int|
                    start_x <= q < p ==> #[trigger] pixel_drawn(
                        line_px@,
                        bg_occupied@,
                        old(bg_occupied)@,
                        self.unavailable_pixels@,
                        old(self).bg_palettes@,
                        vram@,
                        t0,
                        correct_tile_addr,
                        scroll_x,
                        start_x,
                        map_line,
                        signed_tiles,
                        bg_en,
                        q,
                    ),
                forall|q: int|
                    0 <= q < 160 && !(start_x <= q < p) ==> #[trigger] pixel_kept(
                        line_px@,
                        old(line_px)@,
                        bg_occupied@,
                        old(bg_occupied)@,
                        self.unavailable_pixels@,
                        old(self).unavailable_pixels@,
                        q,
                    ),
            decreases end_x - p,
        {
            let x = if bit(attributes, 5) == 1 {
                tile_x
            } else {
                7 - tile_x
            };
            let colour_idx = bit(high, x) * 2 + bit(low, x);
            let ghost lp = line_px@;
            let ghost bo = bg_occupied@;
            let ghost up = self.unavailable_pixels@;
            bg_occupied[p as usize] = bg_occupied[p as usize] || (colour_idx != 0 && bg_en);
            let palette = attributes % 8;
            self.unavailable_pixels[p as usize] = colour_idx != 0 && bit(attributes, 7) == 1 && bg_en;
            line_px[p as usize] = self.bg_palettes[(palette * 4 + colour_idx) as usize].colour;
            proof {
                let pos = scroll_x % 8 + p - start_x;
                assert(pos / 8 == n && pos % 8 == tile_x);
                assert(px_entry(t0, correct_tile_addr, scroll_x, start_x, p as int) == tile_addr);
                assert(colour_idx == px_index(vram@, t0, correct_tile_addr, scroll_x, start_x, map_line, signed_tiles, p as int));
                assert(line_px@ == lp.update(p as int, line_px@[p as int]));
                assert(bg_occupied@ == bo.update(p as int, bg_occupied@[p as int]));
                assert(self.unavailable_pixels@ == up.update(p as int, self.unavailable_pixels@[p as int]));
                assert forall|q: int| start_x <= q < p + 1 implies #[trigger] pixel_drawn(
                    line_px@,
                    bg_occupied@,
                    old(bg_occupied)@,
                    self.unavailable_pixels@,
                    old(self).bg_palettes@,
                    vram@,
                    t0,
                    correct_tile_addr,
                    scroll_x,
                    start_x,
                    map_line,
                    signed_tiles,
                    bg_en,
                    q,
                ) by {
                    if q < p {
                        assert(pixel_drawn(lp, bo, old(bg_occupied)@, up, old(self).bg_palettes@, vram@, t0, correct_tile_addr, scroll_x, start_x, map_line, signed_tiles, bg_en, q));
                    } else {
                        assert(q == p);
                        assert(pixel_kept(lp, old(line_px)@, bo, old(bg_occupied)@, up, old(self).unavailable_pixels@, q));
                        assert(attributes == attr_at(vram@, px_entry(t0, correct_tile_addr, scroll_x, start_x, q)));
                        assert(self.bg_palettes == old(self).bg_palettes);
                        assert(line_px@[q] == old(self).bg_palettes@[(attributes % 8) * 4 + colour_idx].colour);
                    }
                }
                assert forall|q: int| 0 <= q < 160 && !(start_x <= q < p + 1) implies #[trigger] pixel_kept(
                    line_px@,
                    old(line_px)@,
                    bg_occupied@,
                    old(bg_occupied)@,
                    self.unavailable_pixels@,
                    old(self).unavailable_pixels@,
                    q,
                ) by {
                    assert(pixel_kept(lp, old(line_px)@, bo, old(bg_occupied)@, up, old(self).unavailable_pixels@, q));
                }
            }
            tile_x += 1;
            p += 1;
            if tile_x == 8 {
                tile_x = 0;
                proof {
                    n = n + 1;
                    assert(map_addr_at(t0, n, correct_tile_addr) == next_map_addr(tile_addr as int, correct_tile_addr));
                    assert(entry_ok(vram@, map_addr_at(t0, n, correct_tile_addr), map_line, signed_tiles));
                }
                tile_addr = if correct_tile_addr && tile_addr % 32 == 31 {
                    tile_addr - 31
                } else {
                    tile_addr + 1
                };
                attributes = vram[0x2000 + (tile_addr as usize % 0x2000)];
                data = self.tile_line(vram, tile_addr, map_line, signed_tiles);
                high = vram[data + 1];
                low = vram[data];
            }
        }
    }

    /// Offset of the tile line for the map entry at `a`.
    fn tile_line(&self, vram: &[u8; 0x4000], a: u16, map_line: u8, signed_tiles: bool) -> (r: usize)
        requires
            entry_ok(vram@, a as int, map_line, signed_tiles),
        ensures
            r == tile_line_addr(vram@, a as int, map_line, signed_tiles),
            r + 1 < 0x4000,
    {
        let attr = vram[0x2000 + (a as usize % 0x2000)];
        let idx = vram[a as usize];
        let y: usize = if bit(attr, 6) == 1 {
            (7 - map_line % 8) as usize
        } else {
            (map_line % 8) as usize
        };
        let base: usize = if signed_tiles {
            if idx >= 128 {
                0x1000 - (256 - idx as usize) * 16
            } else {
                0x1000 + idx as usize * 16
            }
        } else {
            idx as usize * 16
        };
        base + y * 2 + bit(attr, 3) as usize * 0x2000
    }
}

} // verus!

//! Tiled backgrounds of the GGA: text backgrounds, made of 8 by 8 tiles
//! that a map in VRAM places, and affine backgrounds, whose map and tiles
//! are looked up through a rotation and scaling.
use vstd::prelude::*;
use crate::gga::graphics::{
    draw_all, layers_of, lemma_palette_shift, put_pixel, reg_bit, same_but_layers, tile4_writes, tile8_writes, Ppu,
};

verus! {

/// Offset in a text background's map of the tile at tile coordinates `x`,
/// `y` (see `Ppu::get_map_offset`); only their remainders by 64 matter.
pub open spec fn map_offset(x: int, y: int, size: u16) -> int {
    (y % 32) * 64 + (x % 32) * 2 + if size == 0 {
        0int
    } else if size == 1 {
        if x % 64 > 31 { 0x800int } else { 0int }
    } else if size == 2 {
        if y % 64 > 31 { 0x800int } else { 0int }
    } else {
        (if y % 64 > 31 { 0x1000int } else { 0int }) + (if x % 64 > 31 { 0x800int } else { 0int })
    }
}

/// Settings of a text background line: from its control register, its
/// scroll offsets and the line.
pub struct TextLine {
    pub prio: int,
    pub mosaic: bool,
    /// Horizontal scroll, as the signed value the register holds.
    pub hofs: int,
    /// The background line shown: the screen line plus the vertical scroll.
    pub bg_y: int,
    pub tile_base: int,
    pub map_base: int,
    pub size: u16,
    pub bpp8: bool,
}

/// The settings of a text background line from BGxCNT, BGxHOFS, BGxVOFS.
pub open spec fn text_line(cnt: u16, hofs: u16, vofs: u16, line: u16) -> TextLine {
    TextLine {
        prio: (cnt % 4) as int,
        mosaic: reg_bit(cnt, 6),
        hofs: if hofs >= 0x8000 { hofs - 0x1_0000 } else { hofs as int },
        bg_y: (line + vofs) % 0x1_0000,
        tile_base: ((cnt / 4) % 4) * 0x4000,
        map_base: ((cnt / 256) % 32) * 0x800,
        size: (cnt / 0x4000) as u16,
        bpp8: reg_bit(cnt, 7),
    }
}

/// The pixels of tile `tile` (-1 to 30) of a text background line, and
/// their palette: the map entry at the tile's place gives the tile, its
/// flips and (4-bit tiles) its palette.
pub open spec fn text_tile(vram: Seq<u8>, t: TextLine, tile: int) -> (Seq<(int, u8)>, u8) {
    let bg_x = tile * 8 + t.hofs;
    let map_addr = t.map_base + map_offset(bg_x / 8, t.bg_y / 8, t.size);
    let map = vram[map_addr] + vram[map_addr + 1] * 256;
    let tile_idx = map % 1024;
    let tile_y = if (map / 2048) % 2 == 1 { 7 - t.bg_y % 8 } else { t.bg_y % 8 };
    let base_x = tile * 8 - t.hofs % 8;
    let (x, step) = if (map / 1024) % 2 == 1 { (base_x + 7, -1int) } else { (base_x, 1int) };
    if t.bpp8 {
        (tile8_writes(vram, x, step, t.tile_base + tile_idx * 64 + tile_y * 8), 0u8)
    } else {
        (tile4_writes(vram, x, step, t.tile_base + tile_idx * 32 + tile_y * 4), (map / 4096) as u8)
    }
}

/// The layers after drawing the first `k` tiles of a text background line.
pub open spec fn text_fold(lv: Seq<Seq<Seq<u8>>>, vram: Seq<u8>, pal: Seq<u8>, t: TextLine, mosaic_reg: u16, k: int) -> Seq<
    Seq<Seq<u8>>,
>
    decreases k,
{
    if k <= 0 {
        lv
    } else {
        let (w, palette) = text_tile(vram, t, k - 2);
        draw_all(text_fold(lv, vram, pal, t, mosaic_reg, k - 1), pal, false, w, t.prio, palette, t.mosaic, mosaic_reg)
    }
}

/// State after drawing `line` of text background `idx`.
pub open spec fn text_post(before: Ppu, after: Ppu, idx: u16, dispcnt: u16, cnt: u16, hofs: u16, vofs: u16, mosaic_reg: u16, line: u16) -> bool {
    &&& !reg_bit(dispcnt, 8 + idx) ==> after == before
    &&& reg_bit(dispcnt, 8 + idx) ==> same_but_layers(before, after, false) && layers_of(after, false) == text_fold(
        layers_of(before, false),
        before.vram@,
        before.palette@,
        text_line(cnt, hofs, vofs, line),
        mosaic_reg,
        32,
    )
}

/// The map column of a background X coordinate, read modulo 64 after
/// moving it by 2^16.
proof fn lemma_map_column(bg_x: int)
    requires
        -0x8000 <= bg_x + 0x1_0000,
    ensures
        ((bg_x + 0x1_0000) / 8) % 64 % 32 == (bg_x / 8) % 32,
        ((bg_x + 0x1_0000) / 8) % 64 == (bg_x / 8) % 64,
{
    vstd::arithmetic::div_mod::lemma_hoist_over_denominator(bg_x, 0x2000, 8);
    vstd::arithmetic::div_mod::lemma_mod_multiples_vanish(0x80, bg_x / 8, 64);
    vstd::arithmetic::div_mod::lemma_mod_mod(bg_x / 8, 32, 2);
    assert(0x2000 * 8 == 0x1_0000);
    assert(64 * 0x80 == 0x2000);
}

impl Ppu {
    /// Draw line `line` of text background `IDX`, if DISPCNT enables it,
    /// from its control register and scroll offsets.
    pub fn render_bg_text<const IDX: u16>(
        &mut self,
        dispcnt: u16,
        cnt: u16,
        hofs: u16,
        vofs: u16,
        mosaic_reg: u16,
        line: u16,
    )
        requires
            old(self).wf(),
            IDX < 4,
            hofs < 0x8000 ==> hofs + 240 < 0x8000,
        ensures
            final(self).wf(),
            text_post(*old(self), *final(self), IDX, dispcnt, cnt, hofs, vofs, mosaic_reg, line),
    {
        if !Self::bit(dispcnt, 8 + IDX) {
            return;
        }
        let ghost t = text_line(cnt, hofs, vofs, line);
        let prio = cnt % 4;
        let mosaic = Self::bit(cnt, 6);
        let hofs_i: i32 = if hofs >= 0x8000 {
            hofs as i32 - 0x1_0000
        } else {
            hofs as i32
        };
        let tile_base_addr = ((cnt / 4) % 4) as usize * 0x4000;
        let map_base = ((cnt / 256) % 32) as usize * 0x800;
        let size = cnt / 0x4000;
        let bpp8 = Self::bit(cnt, 7);
        let bg_y = line.wrapping_add(vofs);
        // Remainder of the horizontal scroll by 8, as its low bits.
        let fine_x = ((hofs_i + 0x1_0000) % 8) as i32;
        proof {
            assert(t.hofs == hofs_i && t.bg_y == bg_y && fine_x == t.hofs % 8);
        }
        let mut tile: i32 = -1;
        while tile < 31
            invariant
                self.wf(),
                -1 <= tile <= 31,
                t == text_line(cnt, hofs, vofs, line),
                t.hofs == hofs_i,
                -0x8000 <= hofs_i,
                hofs_i >= 0 ==> hofs_i + 240 < 0x8000,
                t.bg_y == bg_y,
                fine_x == t.hofs % 8,
                prio == t.prio && mosaic == t.mosaic && bpp8 == t.bpp8 && size == t.size,
                tile_base_addr == t.tile_base && map_base == t.map_base,
                tile_base_addr <= 0xC000,
                map_base <= 31 * 0x800,
                same_but_layers(*old(self), *self, false),
                layers_of(*self, false) == text_fold(
                    layers_of(*old(self), false),
                    old(self).vram@,
                    old(self).palette@,
                    t,
                    mosaic_reg,
                    tile + 1,
                ),
            decreases 31 - tile,
        {
            self.render_text_tile(
                Ghost(t), tile, hofs_i, fine_x, bg_y, prio, mosaic, tile_base_addr, map_base, size, bpp8, mosaic_reg,
            );
            tile += 1;
        }
    }

    /// Draw tile `tile` of a text background line `t`.
    #[verifier::rlimit(80)]
    fn render_text_tile(
        &mut self,
        t: Ghost<TextLine>,
        tile: i32,
        hofs_i: i32,
        fine_x: i32,
        bg_y: u16,
        prio: u16,
        mosaic: bool,
        tile_base_addr: usize,
        map_base: usize,
        size: u16,
        bpp8: bool,
        mosaic_reg: u16,
    )
        requires
            old(self).wf(),
            -1 <= tile < 31,
            t@.hofs == hofs_i,
            -0x8000 <= hofs_i,
            hofs_i >= 0 ==> hofs_i + 240 < 0x8000,
            t@.bg_y == bg_y,
            fine_x == t@.hofs % 8,
            prio == t@.prio && mosaic == t@.mosaic && bpp8 == t@.bpp8 && size == t@.size,
            prio < 4,
            tile_base_addr == t@.tile_base && map_base == t@.map_base,
            tile_base_addr <= 0xC000,
            map_base <= 31 * 0x800,
        ensures
            final(self).wf(),
            same_but_layers(*old(self), *final(self), false),
            ({
                let (w, palette) = text_tile(old(self).vram@, t@, tile as int);
                layers_of(*final(self), false) == draw_all(
                    layers_of(*old(self), false),
                    old(self).palette@,
                    false,
                    w,
                    t@.prio,
                    palette,
                    t@.mosaic,
                    mosaic_reg,
                )
            }),
    {
        let bg_x = tile * 8 + hofs_i;
        // The tile column, as far as the map offset reads it.
        let map_x = ((bg_x + 0x1_0000) / 8) % 64;
        proof {
            lemma_map_column(bg_x as int);
        }
        let map_addr = map_base + Self::get_map_offset(map_x as u32, (bg_y / 8) as u32, size) as usize;
        let map = self.vram[map_addr] as u16 + (self.vram[map_addr + 1] as u16) * 256;
        let tile_idx = (map % 1024) as usize;
        let tile_y = if (map / 2048) % 2 == 1 {
            7 - (bg_y % 8)
        } else {
            bg_y % 8
        };
        let base_x = tile * 8 - fine_x;
        let (x, x_step): (i16, i16) = if (map / 1024) % 2 == 1 {
            ((base_x + 7) as i16, -1)
        } else {
            (base_x as i16, 1)
        };
        proof {
            let vram = old(self).vram@;
            assert(map_addr == t@.map_base + map_offset((tile * 8 + t@.hofs) / 8, t@.bg_y / 8, t@.size));
            assert(map == vram[map_addr as int] + vram[map_addr + 1] * 256);
            assert(tile_y == if (map / 2048) % 2 == 1 { 7 - t@.bg_y % 8 } else { t@.bg_y % 8 });
        }
        if bpp8 {
            let tile_addr = tile_base_addr + tile_idx * 64 + tile_y as usize * 8;
            proof {
                assert(text_tile(old(self).vram@, t@, tile as int) == (
                    tile8_writes(old(self).vram@, x as int, x_step as int, tile_addr as int),
                    0u8,
                ));
            }
            self.render_tile_8bpp::<false>(prio, x, x_step, tile_addr, mosaic, mosaic_reg);
        } else {
            let tile_addr = tile_base_addr + tile_idx * 32 + tile_y as usize * 4;
            let palette = (map / 4096) as u8;
            proof {
                assert(text_tile(old(self).vram@, t@, tile as int) == (
                    tile4_writes(old(self).vram@, x as int, x_step as int, tile_addr as int),
                    palette,
                ));
            }
            self.render_tile_4bpp::<false>(prio, x, x_step, tile_addr, palette, mosaic, mosaic_reg);
        }
    }
}

/// Width and height in pixels of an affine background, by its size
/// setting.
pub open spec fn affine_size(s: u16) -> int {
    if s == 0 {
        128
    } else if s == 1 {
        256
    } else if s == 2 {
        512
    } else {
        1024
    }
}

/// An affine background is square, 128 pixels on a side at size 0, and
/// each size step doubles the side, up to 1024.
pub proof fn lemma_affine_size_doubles(s: u16)
    ensures
        affine_size(0) == 128,
        s < 3 ==> affine_size((s + 1) as u16) == 2 * affine_size(s),
        s >= 3 ==> affine_size(s) == 1024,
{
}

/// A 16-bit register as the signed value it holds.
pub open spec fn signed16(v: u16) -> int {
    if v >= 0x8000 {
        v - 0x1_0000
    } else {
        v as int
    }
}

/// Colour index of pixel `px` of an affine background line: the
/// reference point `bg_x`, `bg_y` moved by `px` times PA and PC, in 8.8
/// fixed point rounded down, wrapped around the background with
/// `overflow` or transparent outside it, looked up in the map (a byte per
/// tile) and an 8-bit tile.
pub open spec fn affine_bg_colour(
    vram: Seq<u8>,
    cnt: u16,
    bg_x: int,
    bg_y: int,
    pa: int,
    pc: int,
    px: int,
) -> u8 {
    let size = affine_size(cnt / 0x4000);
    let x0 = (bg_x + pa * px) / 256;
    let y0 = (bg_y + pc * px) / 256;
    let inside = 0 <= x0 < size && 0 <= y0 < size;
    let overflow = reg_bit(cnt, 13);
    let x = if inside { x0 } else { x0 % size };
    let y = if inside { y0 } else { y0 % size };
    if !inside && !overflow {
        0
    } else {
        let map = vram[((cnt / 256) % 32) * 0x800 + (y / 8) * (size / 8) + x / 8];
        vram[((cnt / 4) % 4) * 0x4000 + map * 64 + (y % 8) * 8 + x % 8]
    }
}

/// The pixels of an affine background line.
pub open spec fn affine_bg_writes(vram: Seq<u8>, cnt: u16, bg_x: int, bg_y: int, pa: int, pc: int) -> Seq<(int, u8)> {
    Seq::new(240, |px: int| (px, affine_bg_colour(vram, cnt, bg_x, bg_y, pa, pc, px)))
}

/// Moving a value by a multiple of 256 moves its quotient by 256 alike.
proof fn lemma_floor_256(v: int)
    ensures
        (v + 0x1_0000_0000) / 256 - 0x100_0000 == v / 256,
{
    vstd::arithmetic::div_mod::lemma_hoist_over_denominator(v, 0x100_0000, 256);
    assert(0x100_0000 * 256 == 0x1_0000_0000);
}

/// State after drawing the current line of affine background `idx`.
pub open spec fn affine_bg_post(before: Ppu, after: Ppu, idx: u16, dispcnt: u16, cnt: u16, params: [u16; 4], mosaic_reg: u16) -> bool {
    &&& !reg_bit(dispcnt, 8 + idx) ==> after == before
    &&& reg_bit(dispcnt, 8 + idx) ==> {
        let i = idx - 2;
        &&& after.bg_x@ == before.bg_x@.update(i, (before.bg_x[i] + signed16(params[1])) as i32)
        &&& after.bg_y@ == before.bg_y@.update(i, (before.bg_y[i] + signed16(params[3])) as i32)
        &&& after.palette == before.palette && after.vram == before.vram
        &&& after.oam == before.oam && after.pixels == before.pixels
        &&& after.win_masks == before.win_masks && after.obj_layers == before.obj_layers
        &&& after.last_frame == before.last_frame
        &&& layers_of(after, false) == draw_all(
            layers_of(before, false),
            before.palette@,
            false,
            affine_bg_writes(
                before.vram@,
                cnt,
                before.bg_x[i] as int,
                before.bg_y[i] as int,
                signed16(params[0]),
                signed16(params[2]),
            ),
            (cnt % 4) as int,
            0,
            reg_bit(cnt, 6),
            mosaic_reg,
        )
    }
}

impl Ppu {
    /// Draw the current line of affine background `IDX` (2 or 3), if
    /// DISPCNT enables it, from its control register and its parameters PA,
    /// PB, PC and PD; then move its reference point down a line by PB and
    /// PD.
    pub fn render_bg_affine<const IDX: u16>(
        &mut self,
        dispcnt: u16,
        cnt: u16,
        params: [u16; 4],
        mosaic_reg: u16,
    )
        requires
            old(self).wf(),
            IDX == 2 || IDX == 3,
            -0x4000_0000 <= old(self).bg_x[IDX - 2] <= 0x4000_0000,
            -0x4000_0000 <= old(self).bg_y[IDX - 2] <= 0x4000_0000,
        ensures
            final(self).wf(),
            affine_bg_post(*old(self), *final(self), IDX, dispcnt, cnt, params, mosaic_reg),
    {
        if !Self::bit(dispcnt, 8 + IDX) {
            return;
        }
        let i = (IDX - 2) as usize;
        let prio = cnt % 4;
        let mosaic = Self::bit(cnt, 6);
        let bg_x = self.bg_x[i];
        let bg_y = self.bg_y[i];
        let pa = Self::signed(params[0]);
        let pb = Self::signed(params[1]);
        let pc = Self::signed(params[2]);
        let pd = Self::signed(params[3]);
        let ghost w = affine_bg_writes(self.vram@, cnt, bg_x as int, bg_y as int, pa as int, pc as int);
        proof {
            assert(w.take(0) =~= Seq::<(int, u8)>::empty());
            lemma_palette_shift(0);
        }
        let mut pixel_x: i32 = 0;
        while pixel_x < 240
            invariant
                self.wf(),
                0 <= pixel_x <= 240,
                i == IDX - 2,
                prio == cnt % 4 && mosaic == reg_bit(cnt, 6),
                -0x4000_0000 <= bg_x <= 0x4000_0000,
                -0x4000_0000 <= bg_y <= 0x4000_0000,
                -0x8000 <= pa < 0x8000 && -0x8000 <= pc < 0x8000,
                0u8 << 4u8 == 0,
                w == affine_bg_writes(old(self).vram@, cnt, bg_x as int, bg_y as int, pa as int, pc as int),
                same_but_layers(*old(self), *self, false),
                layers_of(*self, false) == draw_all(
                    layers_of(*old(self), false),
                    old(self).palette@,
                    false,
                    w.take(pixel_x as int),
                    prio as int,
                    0,
                    mosaic,
                    mosaic_reg,
                ),
            decreases 240 - pixel_x,
        {
            let colour = self.affine_bg_pixel(cnt, bg_x, bg_y, pa, pc, pixel_x);
            self.set_pixel::<false>(pixel_x as i16, prio, 0, colour, mosaic, mosaic_reg);
            proof {
                assert(w.take(pixel_x + 1).drop_last() =~= w.take(pixel_x as int));
                assert(w.take(pixel_x + 1).last() == (pixel_x as int, colour));
            }
            pixel_x += 1;
        }
        proof {
            assert(w.take(240) =~= w);
        }
        self.bg_x[i] = bg_x + pb;
        self.bg_y[i] = bg_y + pd;
    }

    /// A 16-bit register as the signed value it holds.
    fn signed(v: u16) -> (r: i32)
        ensures
            r == signed16(v),
    {
        if v >= 0x8000 {
            v as i32 - 0x1_0000
        } else {
            v as i32
        }
    }

    /// Colour index of pixel `px` of an affine background line.
    fn affine_bg_pixel(&self, cnt: u16, bg_x: i32, bg_y: i32, pa: i32, pc: i32, px: i32) -> (r: u8)
        requires
            self.wf(),
            -0x4000_0000 <= bg_x <= 0x4000_0000,
            -0x4000_0000 <= bg_y <= 0x4000_0000,
            -0x8000 <= pa < 0x8000 && -0x8000 <= pc < 0x8000,
            0 <= px < 240,
        ensures
            r == affine_bg_colour(self.vram@, cnt, bg_x as int, bg_y as int, pa as int, pc as int, px as int),
    {
        let size: i64 = match cnt / 0x4000 {
            0 => 128,
            1 => 256,
            2 => 512,
            _ => 1024,
        };
        match affine_bg_coords(size, Self::bit(cnt, 13), bg_x, bg_y, pa, pc, px) {
            None => 0,
            Some((x, y)) => {
                proof {
                    assert((y / 8) * (size / 8) <= 127 * 128) by (nonlinear_arith)
                        requires
                            0 <= y < size <= 1024,
                    ;
                }
                let map_addr = ((cnt / 256) % 32) as usize * 0x800 + ((y / 8) * (size / 8) + (x / 8)) as usize;
                let map = self.vram[map_addr];
                let tile_x = (x % 8) as usize;
                let tile_y = (y % 8) as usize;
                let tile_addr = ((cnt / 4) % 4) as usize * 0x4000 + (map as usize * 64) + (tile_y * 8) + tile_x;
                self.vram[tile_addr]
            },
        }
    }
}

/// Wrapping a coordinate around a background does not care about moving
/// it by 2^24 first.
proof fn lemma_wrap(x: int, size: int)
    requires
        size == 128 || size == 256 || size == 512 || size == 1024,
    ensures
        (x + 0x100_0000) % size == x % size,
{
    vstd::arithmetic::div_mod::lemma_mod_multiples_vanish(0x100_0000int / size, x, size);
    assert(size * (0x100_0000int / size) == 0x100_0000);
}

/// The background coordinates of pixel `px` of an affine background line
/// of `size` pixels: `None` where they fall outside and do not wrap
/// (`overflow`).
fn affine_bg_coords(size: i64, overflow: bool, bg_x: i32, bg_y: i32, pa: i32, pc: i32, px: i32) -> (r: Option<(i64, i64)>)
    requires
        size == 128 || size == 256 || size == 512 || size == 1024,
        -0x4000_0000 <= bg_x <= 0x4000_0000,
        -0x4000_0000 <= bg_y <= 0x4000_0000,
        -0x8000 <= pa < 0x8000 && -0x8000 <= pc < 0x8000,
        0 <= px < 240,
    ensures
        ({
            let x0 = (bg_x + pa * px) / 256;
            let y0 = (bg_y + pc * px) / 256;
            let inside = 0 <= x0 < size && 0 <= y0 < size;
            if !inside && !overflow {
                r is None
            } else {
                r == Some(
                    (
                        (if inside { x0 } else { x0 % (size as int) }) as i64,
                        (if inside { y0 } else { y0 % (size as int) }) as i64,
                    ),
                )
            }
        }),
        r matches Some((x, y)) ==> 0 <= x < size && 0 <= y < size,
{
    proof {
        assert(-0x80_0000 <= pa * px <= 0x80_0000 && -0x80_0000 <= pc * px <= 0x80_0000) by (nonlinear_arith)
            requires
                -0x8000 <= pa < 0x8000 && -0x8000 <= pc < 0x8000,
                0 <= px < 240,
        ;
        lemma_floor_256(bg_x + pa * px);
        lemma_floor_256(bg_y + pc * px);
    }
    // An arithmetic shift right by 8: floor division by 256.
    let x = (bg_x as i64 + pa as i64 * px as i64 + 0x1_0000_0000) / 256 - 0x100_0000;
    let y = (bg_y as i64 + pc as i64 * px as i64 + 0x1_0000_0000) / 256 - 0x100_0000;
    if !(0 <= x && x < size) || !(0 <= y && y < size) {
        if !overflow {
            None
        } else {
            proof {
                lemma_wrap(x as int, size as int);
                lemma_wrap(y as int, size as int);
            }
            Some(((x + 0x100_0000) % size, (y + 0x100_0000) % size))
        }
    } else {
        Some((x, y))
    }
}

} // verus!

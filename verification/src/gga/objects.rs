//! Sprites (objects) of the GGA: their attributes in OAM, the size their
//! shape gives them, which lines they cover, and the affine lookup of their
//! pixels in VRAM.
use vstd::prelude::*;
use vstd::arithmetic::power2::{lemma2_to64, pow2};
use crate::gga::graphics::{
    draw_all, layers_of, lemma_draw_all_append, lemma_palette_shift, nibble, put_pixel, reg_bit, rows,
    same_but_layers, tile4_writes, tile8_writes, vram_at, Ppu,
};

verus! {

/// Width of an object, by its shape (bits 2-3) and size (bits 0-1).
pub open spec fn obj_x_size(i: int) -> u16 {
    if i == 0 {
        8
    } else if i == 1 {
        16
    } else if i == 2 {
        32
    } else if i == 3 {
        64
    } else if i == 4 {
        16
    } else if i == 5 {
        32
    } else if i == 6 {
        32
    } else if i == 7 {
        64
    } else if i == 8 {
        8
    } else if i == 9 {
        8
    } else if i == 10 {
        16
    } else if i == 11 {
        32
    } else {
        0
    }
}

/// Height of an object, by its shape (bits 2-3) and size (bits 0-1).
pub open spec fn obj_y_size(i: int) -> u16 {
    if i == 0 {
        8
    } else if i == 1 {
        16
    } else if i == 2 {
        32
    } else if i == 3 {
        64
    } else if i == 4 {
        8
    } else if i == 5 {
        8
    } else if i == 6 {
        16
    } else if i == 7 {
        32
    } else if i == 8 {
        16
    } else if i == 9 {
        32
    } else if i == 10 {
        32
    } else if i == 11 {
        64
    } else {
        0
    }
}

/// A square object (shape 0) is as tall as it is wide, and each step of
/// its size doubles the side, from 8 pixels: 8, 16, 32, 64. A tall object
/// (shape 2) is the wide object (shape 1) of the same size turned on its
/// side, and a wide one is wider than tall.
pub proof fn lemma_object_shapes(o: Object)
    requires
        o.attr1 / 64 < 4,
    ensures
        o.attr0 / 64 == 0 ==> obj_x_size(o.size_index()) == obj_y_size(o.size_index())
            && obj_x_size(o.size_index()) as int == 8 * pow2((o.attr1 / 64) as nat),
        o.attr0 / 64 == 1 ==> obj_x_size(o.size_index()) > obj_y_size(o.size_index()),
        o.attr0 / 64 == 1 ==> obj_x_size(o.size_index()) == obj_y_size(o.size_index() + 4)
            && obj_y_size(o.size_index()) == obj_x_size(o.size_index() + 4),
{
    lemma2_to64();
}

/// Each side of an object, of any shape and size, is 8, 16, 32 or 64
/// pixels, and within a shape each size step makes the object larger.
pub proof fn lemma_object_sides(i: int)
    requires
        0 <= i < 12,
    ensures
        obj_x_size(i) == 8 || obj_x_size(i) == 16 || obj_x_size(i) == 32 || obj_x_size(i) == 64,
        obj_y_size(i) == 8 || obj_y_size(i) == 16 || obj_y_size(i) == 32 || obj_y_size(i) == 64,
        i % 4 < 3 ==> obj_x_size(i) * obj_y_size(i) < obj_x_size(i + 1) * obj_y_size(i + 1),
{
    let x0 = obj_x_size(i) as int;
    let y0 = obj_y_size(i) as int;
    let x1 = obj_x_size(i + 1) as int;
    let y1 = obj_y_size(i + 1) as int;
    if i == 0 {
        assert(x0 == 8 && y0 == 8 && x1 == 16 && y1 == 16);
    }
    if i == 1 {
        assert(x0 == 16 && y0 == 16 && x1 == 32 && y1 == 32);
    }
    if i == 2 {
        assert(x0 == 32 && y0 == 32 && x1 == 64 && y1 == 64);
    }
    if i == 4 {
        assert(x0 == 16 && y0 == 8 && x1 == 32 && y1 == 8);
    }
    if i == 5 {
        assert(x0 == 32 && y0 == 8 && x1 == 32 && y1 == 16);
    }
    if i == 6 {
        assert(x0 == 32 && y0 == 16 && x1 == 64 && y1 == 32);
    }
    if i == 8 {
        assert(x0 == 8 && y0 == 16 && x1 == 8 && y1 == 32);
    }
    if i == 9 {
        assert(x0 == 8 && y0 == 32 && x1 == 16 && y1 == 32);
    }
    if i == 10 {
        assert(x0 == 16 && y0 == 32 && x1 == 32 && y1 == 64);
    }
}

/// An object's attributes as read from OAM.
#[derive(Copy, Clone, PartialEq, Eq, Structural, Debug)]
pub struct Object {
    /// X coordinate, 9 bits.
    pub x: u16,
    pub y: u8,
    /// Low byte of attribute 0: mode, mosaic, colours, shape.
    pub attr0: u8,
    /// High byte of attribute 1: flips or affine parameters, size.
    pub attr1: u8,
    pub attr2: u16,
}

/// The wrapped distance from an object's top to `line`.
pub open spec fn line_offset(line: u16, y: u8) -> u8 {
    (((line % 256) - y + 256) % 256) as u8
}

/// An `i16` as the value of its two's complement bits.
pub open spec fn sext16(h: u16) -> int {
    if h >= 0x8000 {
        h - 0x1_0000
    } else {
        h as int
    }
}

/// The line of object `o` that screen line `line` shows (see
/// `Object::y_on`).
pub open spec fn y_on_spec(o: Object, line: u16, mosaic: u16) -> u8 {
    let pos = if (o.attr0 / 16) % 2 == 1 {
        line_offset(line, o.y) & ((mosaic / 0x1000 - 1) as u8)
    } else {
        line_offset(line, o.y)
    };
    if (o.attr1 / 32) % 2 == 1 {
        (obj_y_size(o.size_index()) - pos - 1) as u8
    } else {
        pos
    }
}

/// First X coordinate and step of object `o` (see `Object::signed_x`).
pub open spec fn signed_x_spec(o: Object, flip: bool) -> (i16, i16) {
    let x: int = if o.x >= 0x100 { o.x - 0x200 } else { o.x as int };
    if flip && (o.attr1 / 16) % 2 == 1 {
        ((x + obj_x_size(o.size_index()) - 1) as i16, -1i16)
    } else {
        (x as i16, 1i16)
    }
}

impl Object {
    /// Index into the size tables: shape in bits 2-3, size in bits 0-1.
    pub open spec fn size_index(self) -> int {
        (self.attr1 / 64) + (self.attr0 / 64) * 4
    }

    /// The object's width and height.
    pub fn size(self) -> (r: (u16, u16))
        ensures
            r == (obj_x_size(self.size_index()), obj_y_size(self.size_index())),
    {
        let addr = (self.attr1 / 64) as usize + ((self.attr0 / 64) as usize) * 4;
        match addr {
            0 => (8, 8),
            1 => (16, 16),
            2 => (32, 32),
            3 => (64, 64),
            4 => (16, 8),
            5 => (32, 8),
            6 => (32, 16),
            7 => (64, 32),
            8 => (8, 16),
            9 => (8, 32),
            10 => (16, 32),
            11 => (32, 64),
            _ => (0, 0),
        }
    }

    /// The object's mode (bits 3-4) and shape (bits 6-7) are not the
    /// prohibited value 3.
    pub fn valid(self) -> (r: bool)
        ensures
            r == ((self.attr0 / 8) % 4 != 3 && self.attr0 / 64 != 3),
    {
        (self.attr0 / 8) % 4 != 3 && self.attr0 / 64 != 3
    }

    /// If the object is valid and covers `line`, `size_y` lines tall.
    pub fn draw_on(self, line: u16, size_y: u8) -> (r: bool)
        ensures
            r == ((self.attr0 / 8) % 4 != 3 && self.attr0 / 64 != 3 && line_offset(line, self.y) < size_y),
    {
        let pos = ((line % 256) as u8).wrapping_sub(self.y);
        self.valid() && pos < size_y
    }

    /// The line of the object that screen line `line` shows: with mosaic,
    /// rounded down to the vertical mosaic size of MOSAIC (`mosaic`), a
    /// power of two; flipped vertically if bit 5 of attribute 1 is set.
    pub fn y_on(self, line: u16, mosaic: u16) -> (r: u8)
        requires
            (self.attr0 / 16) % 2 == 1 ==> mosaic / 0x1000 > 0,
            (self.attr1 / 32) % 2 == 1 ==> {
                let pos = if (self.attr0 / 16) % 2 == 1 {
                    line_offset(line, self.y) & ((mosaic / 0x1000 - 1) as u8)
                } else {
                    line_offset(line, self.y)
                };
                pos < obj_y_size(self.size_index()) <= 255
            },
        ensures
            r == y_on_spec(self, line, mosaic),
    {
        let mut pos = ((line % 256) as u8).wrapping_sub(self.y);
        // Consider VFlip and Mosaic
        if (self.attr0 / 16) % 2 == 1 {
            pos &= (mosaic / 0x1000 - 1) as u8;
        }
        if (self.attr1 / 32) % 2 == 1 {
            pos = self.size().1 as u8 - pos - 1;
        }
        pos
    }

    /// The object's X coordinate, sign-extended from 9 bits, and the step
    /// to the next pixel: if `FLIP` and the object is flipped horizontally,
    /// its right edge and -1.
    pub fn signed_x<const FLIP: bool>(self) -> (r: (i16, i16))
        requires
            self.x < 0x200,
        ensures
            r == signed_x_spec(self, FLIP),
    {
        let x: i16 = if self.x >= 0x100 {
            self.x as i16 - 0x200
        } else {
            self.x as i16
        };
        if FLIP && (self.attr1 / 16) % 2 == 1 {
            (x + self.size().0 as i16 - 1, -1)
        } else {
            (x, 1)
        }
    }
}

/// Colour index at `tx`, `ty` of an object `width` pixels wide whose tiles
/// start at `base` (see `Ppu::get_affine_pixel`).
pub open spec fn affine_pixel(vram: Seq<u8>, base: int, width: int, tx: int, ty: int, is_2d: bool, bpp8: bool) -> u8 {
    let tile_y = ty % 8;
    if bpp8 {
        let tile_addr = 0x1_0000 + if !is_2d {
            (base + ((ty / 8) * width) / 8) * 64
        } else {
            (base + (ty / 8) * 32) * 32
        };
        vram_at(vram, tile_addr + tile_y * 8 + 64 * (tx / 8) + tx % 8)
    } else {
        let adj = base + (ty / 8) * if !is_2d { width / 8 } else { 32 };
        let byte = vram_at(vram, 0x1_0000 + adj * 32 + tile_y * 4 + 32 * (tx / 8) + (tx % 8) / 2);
        if tx % 2 == 1 {
            byte / 16
        } else {
            byte % 16
        }
    }
}

impl Ppu {
    /// Read object `idx` from OAM.
    pub fn read_object(&self, idx: usize) -> (o: Object)
        requires
            self.wf(),
            idx < 128,
        ensures
            o == (Object {
                x: (self.oam@[idx * 8 + 2] + (self.oam@[idx * 8 + 3] % 2) * 256) as u16,
                y: self.oam@[idx * 8],
                attr0: self.oam@[idx * 8 + 1],
                attr1: self.oam@[idx * 8 + 3],
                attr2: (self.oam@[idx * 8 + 4] + self.oam@[idx * 8 + 5] * 256) as u16,
            }),
    {
        let addr = idx * 8;
        Object {
            x: self.oam[addr + 2] as u16 + ((self.oam[addr + 3] as u16) % 2) * 256,
            y: self.oam[addr],
            attr0: self.oam[addr + 1],
            attr1: self.oam[addr + 3],
            attr2: self.oam[addr + 4] as u16 + (self.oam[addr + 5] as u16) * 256,
        }
    }

    /// The affine parameters PA, PB, PC, PD of group `idx`: the halfwords
    /// at 6, 14, 22 and 30 of its 32 bytes of OAM, signed.
    pub fn get_rotscal(&self, idx: u8) -> (r: [i32; 4])
        requires
            self.wf(),
            idx < 32,
        ensures
            forall|k: int|
                0 <= k < 4 ==> #[trigger] r[k] == sext16(
                    (self.oam@[32 * idx + 6 + 8 * k] + self.oam@[32 * idx + 7 + 8 * k] * 256) as u16,
                ),
    {
        let mut offs = 32 * idx as usize + 6;
        let mut out = [0i32; 4];
        let mut k: usize = 0;
        while k < 4
            invariant
                self.wf(),
                idx < 32,
                k <= 4,
                offs == 32 * idx + 6 + 8 * k,
                forall|j: int|
                    0 <= j < k ==> #[trigger] out[j] == sext16(
                        (self.oam@[32 * idx + 6 + 8 * j] + self.oam@[32 * idx + 7 + 8 * j] * 256) as u16,
                    ),
            decreases 4 - k,
        {
            let h = self.oam[offs] as u16 + (self.oam[offs + 1] as u16) * 256;
            out[k] = if h >= 0x8000 {
                h as i32 - 0x1_0000
            } else {
                h as i32
            };
            offs += 8;
            k += 1;
        }
        out
    }

    /// Colour index of the pixel at `trans_x`, `trans_y` of an object of
    /// size `size` whose tiles start at `base_tile_idx`: tiles of 8 by 8
    /// pixels from 0x10000 in VRAM, laid out in rows of the object's width
    /// (`!is_2d`) or of 32 tiles; 8 bits per pixel, or 4 with the low
    /// nibble first.
    pub fn get_affine_pixel(
        &self,
        base_tile_idx: usize,
        size: (u16, u16),
        trans_x: u16,
        trans_y: u16,
        is_2d: bool,
        is_8bpp: bool,
    ) -> (r: u8)
        requires
            self.wf(),
            base_tile_idx < 1024,
            size.0 <= 64,
            trans_x < size.0,
            trans_y < size.1 <= 64,
        ensures
            r == affine_pixel(
                self.vram@,
                base_tile_idx as int,
                size.0 as int,
                trans_x as int,
                trans_y as int,
                is_2d,
                is_8bpp,
            ),
    {
        let tile_y = (trans_y % 8) as usize;
        let tx = trans_x as usize;
        let ty = trans_y as usize;
        let sx = size.0 as usize;
        proof {
            assert((ty / 8) * sx <= 7 * 64 && (ty / 8) * (sx / 8) <= 7 * 8 && (ty / 8) * 32 <= 7 * 32)
                by (nonlinear_arith)
                requires
                    ty < 64,
                    sx <= 64,
            ;
        }
        if is_8bpp {
            let tile_addr = 0x1_0000 + if !is_2d {
                (base_tile_idx + ((ty / 8) * size.0 as usize) / 8) * 64
            } else {
                (base_tile_idx + (ty / 8) * 32) * 32
            };
            let tile_line_addr = tile_addr + tile_y * 8 + 64 * (tx / 8);
            self.vram(tile_line_addr + tx % 8)
        } else {
            let adj_tile_idx = base_tile_idx + (ty / 8) * if !is_2d {
                size.0 as usize / 8
            } else {
                32
            };
            let tile_addr = 0x1_0000 + adj_tile_idx * 32;
            let tile_line_addr = tile_addr + tile_y * 4 + 32 * (tx / 8);
            let byte = self.vram(tile_line_addr + (tx % 8) / 2);
            if tx % 2 == 1 {
                byte / 16
            } else {
                byte % 16
            }
        }
    }
}

/// The window masks as values, by layer and pixel.
pub open spec fn masks_of(p: Ppu) -> Seq<Seq<bool>> {
    Seq::new(p.win_masks@.len(), |m: int| p.win_masks@[m]@)
}

/// Masks after the OBJ window takes pixel `x`, where an object pixel of
/// colour index `c` lies: each layer may draw it as WINOUT's OBJ window
/// bits (8 to 12) say. Index 0 and pixels off the line change nothing.
pub open spec fn put_window(mv: Seq<Seq<bool>>, wout: u16, x: int, c: u8) -> Seq<Seq<bool>> {
    if !(0 <= x < 240) || c == 0 {
        mv
    } else {
        Seq::new(mv.len(), |m: int| mv[m].update(x, reg_bit(wout, 8 + m)))
    }
}

/// Masks after the OBJ window takes each of `writes` in turn.
pub open spec fn window_all(mv: Seq<Seq<bool>>, wout: u16, writes: Seq<(int, u8)>) -> Seq<Seq<bool>>
    decreases writes.len(),
{
    if writes.len() == 0 {
        mv
    } else {
        put_window(window_all(mv, wout, writes.drop_last()), wout, writes.last().0, writes.last().1)
    }
}

/// Taking two lists of pixels into the window is taking one after the
/// other.
pub proof fn lemma_window_all_append(mv: Seq<Seq<bool>>, wout: u16, a: Seq<(int, u8)>, b: Seq<(int, u8)>)
    ensures
        window_all(mv, wout, a + b) == window_all(window_all(mv, wout, a), wout, b),
    decreases b.len(),
{
    if b.len() == 0 {
        assert(a + b =~= a);
    } else {
        lemma_window_all_append(mv, wout, a, b.drop_last());
        assert((a + b).drop_last() =~= a + b.drop_last());
    }
}

/// Everything but the window masks stays.
pub open spec fn same_but_masks(before: Ppu, after: Ppu) -> bool {
    &&& after.palette == before.palette && after.vram == before.vram
    &&& after.oam == before.oam && after.pixels == before.pixels
    &&& after.bg_layers == before.bg_layers && after.obj_layers == before.obj_layers
    &&& after.bg_x == before.bg_x && after.bg_y == before.bg_y
    &&& after.last_frame == before.last_frame
}

impl Ppu {
    /// Let an object pixel of colour index `colour` at `pixel` set the OBJ
    /// window there, from WINOUT (`wout`).
    pub fn set_window_pixel(&mut self, pixel: i16, colour: u8, wout: u16)
        requires
            old(self).wf(),
        ensures
            final(self).wf(),
            same_but_masks(*old(self), *final(self)),
            masks_of(*final(self)) == put_window(masks_of(*old(self)), wout, pixel as int, colour),
    {
        if !(0 <= pixel && pixel < 240) || colour == 0 {
            proof {
                assert(masks_of(*self) =~= put_window(masks_of(*old(self)), wout, pixel as int, colour));
            }
            return;
        }
        let x = pixel as usize;
        let mut mask: usize = 0;
        while mask < 5
            invariant
                self.wf(),
                0 <= pixel < 240,
                x == pixel,
                colour != 0,
                mask <= 5,
                same_but_masks(*old(self), *self),
                forall|m: int|
                    0 <= m < 5 ==> #[trigger] self.win_masks@[m]@ == if m < mask {
                        old(self).win_masks@[m]@.update(x as int, reg_bit(wout, 8 + m))
                    } else {
                        old(self).win_masks@[m]@
                    },
            decreases 5 - mask,
        {
            let enable = Self::bit(wout, 8 + mask as u16);
            let ghost before = self.win_masks@;
            self.win_masks[mask].set(x, enable);
            proof {
                assert forall|m: int| 0 <= m < 5 && m != mask implies #[trigger] self.win_masks@[m] == before[m] by {}
                assert(rows(self.win_masks@, 5));
            }
            mask += 1;
        }
        proof {
            assert(masks_of(*self) =~= put_window(masks_of(*old(self)), wout, pixel as int, colour));
        }
    }
}

/// The pixels of one line of a regular object, `count` tiles wide, from
/// `x0` on in steps of `step`: pixel `k` from tile `k / 8` of the tile line
/// at `line_addr`, 8-bit tiles 64 bytes apart, 4-bit ones 32.
pub open spec fn obj_line_writes(vram: Seq<u8>, x0: int, step: int, line_addr: int, count: int, bpp8: bool) -> Seq<
    (int, u8),
> {
    Seq::new(
        (count * 8) as nat,
        |k: int|
            (
                x0 + k * step,
                if bpp8 {
                    vram_at(vram, line_addr + 64 * (k / 8) + k % 8)
                } else {
                    nibble(vram_at(vram, line_addr + 32 * (k / 8) + (k % 8) / 2), k % 2 == 1)
                },
            ),
    )
}

/// The pixels an object in the OBJ window marks: every tile repeats the
/// first line of the first tile, at `tile_addr`.
pub open spec fn obj_window_writes(vram: Seq<u8>, x0: int, step: int, tile_addr: int, count: int, bpp8: bool) -> Seq<
    (int, u8),
> {
    Seq::new(
        (count * 8) as nat,
        |k: int|
            (
                x0 + k * step,
                if bpp8 {
                    vram_at(vram, tile_addr + k % 8)
                } else {
                    nibble(vram_at(vram, tile_addr + (k % 8) / 2), k % 2 == 1)
                },
            ),
    )
}

/// Where the tiles of a line of a regular object start in VRAM: tile
/// `base` of the object data at 0x10000, moved down by the rows above
/// `obj_y`, which are the object's width (`!is_2d`) or 32 tiles apart.
pub open spec fn obj_tile_addr(base: int, obj_y: int, width: int, is_2d: bool, bpp8: bool) -> int {
    if bpp8 {
        0x1_0000 + if !is_2d {
            (base + ((obj_y / 8) * width) / 8) * 64
        } else {
            (base + (obj_y / 8) * 32) * 32
        }
    } else {
        0x1_0000 + (base + (obj_y / 8) * if !is_2d { width / 8 } else { 32 }) * 32
    }
}

/// A drawn regular object with mosaic needs a vertical mosaic size in
/// MOSAIC.
pub open spec fn mosaic_ok(obj: Object, line: u16, mosaic_reg: u16) -> bool {
    (obj.attr0 / 16) % 2 == 1 && (obj.attr0 / 8) % 4 != 3 && obj.attr0 / 64 != 3 && line_offset(line, obj.y)
        < obj_y_size(obj.size_index()) ==> mosaic_reg / 0x1000 > 0
}

/// State after drawing a regular object on `line`, from DISPCNT, MOSAIC
/// and WINOUT: nothing if the object is not on the line; else its pixels
/// of the line go to the OBJ window if its mode says so and DISPCNT
/// enables that window, or to the object layer of its priority.
pub open spec fn regular_obj_post(
    before: Ppu,
    after: Ppu,
    dispcnt: u16,
    mosaic_reg: u16,
    wout: u16,
    line: u16,
    obj: Object,
    is_2d: bool,
) -> bool {
    let width = obj_x_size(obj.size_index());
    let height = obj_y_size(obj.size_index());
    let drawn = (obj.attr0 / 8) % 4 != 3 && obj.attr0 / 64 != 3 && line_offset(line, obj.y) < height;
    let (x0, step) = signed_x_spec(obj, true);
    let obj_y = y_on_spec(obj, line, mosaic_reg);
    let bpp8 = (obj.attr0 / 32) % 2 == 1;
    let tile_addr = obj_tile_addr((obj.attr2 % 1024) as int, obj_y as int, width as int, is_2d, bpp8);
    let line_addr = tile_addr + (obj_y % 8) * if bpp8 { 8int } else { 4int };
    let count = (width / 8) as int;
    let is_window = reg_bit(dispcnt, 15) && (obj.attr0 / 4) % 4 == 2;
    if !drawn {
        after == before
    } else if is_window {
        &&& same_but_masks(before, after)
        &&& masks_of(after) == window_all(
            masks_of(before),
            wout,
            obj_window_writes(before.vram@, x0 as int, step as int, tile_addr, count, bpp8),
        )
    } else {
        &&& same_but_layers(before, after, true)
        &&& layers_of(after, true) == draw_all(
            layers_of(before, true),
            before.palette@,
            true,
            obj_line_writes(before.vram@, x0 as int, step as int, line_addr, count, bpp8),
            ((obj.attr2 / 1024) % 4) as int,
            if bpp8 { 0 } else { (obj.attr2 / 4096) as u8 },
            reg_bit(obj.attr2, 4),
            mosaic_reg,
        )
    }
}

impl Ppu {
    /// Mark the OBJ window with the pixels of a line of an 8-bit tile.
    fn window_tile_8bpp(&mut self, x: i16, x_step: i16, tile_addr: usize, wout: u16)
        requires
            old(self).wf(),
            tile_addr + 8 <= 0x3_0000,
            x_step == 1 || x_step == -1,
            -0x1000 <= x <= 0x1000,
        ensures
            final(self).wf(),
            same_but_masks(*old(self), *final(self)),
            masks_of(*final(self)) == window_all(
                masks_of(*old(self)),
                wout,
                obj_window_writes(old(self).vram@, x as int, x_step as int, tile_addr as int, 1, true),
            ),
    {
        let ghost w = obj_window_writes(self.vram@, x as int, x_step as int, tile_addr as int, 1, true);
        proof {
            assert(w.take(0) =~= Seq::<(int, u8)>::empty());
        }
        let mut px = x;
        let mut idx: usize = 0;
        while idx < 8
            invariant
                self.wf(),
                tile_addr + 8 <= 0x3_0000,
                x_step == 1 || x_step == -1,
                -0x1000 <= x <= 0x1000,
                idx <= 8,
                px == x + idx * x_step,
                same_but_masks(*old(self), *self),
                w == obj_window_writes(old(self).vram@, x as int, x_step as int, tile_addr as int, 1, true),
                masks_of(*self) == window_all(masks_of(*old(self)), wout, w.take(idx as int)),
            decreases 8 - idx,
        {
            let colour = self.vram(tile_addr + idx);
            self.set_window_pixel(px, colour, wout);
            proof {
                assert(w.take(idx + 1).drop_last() =~= w.take(idx as int));
                assert(w.take(idx + 1).last() == (px as int, colour));
            }
            px = px + x_step;
            idx += 1;
        }
        proof {
            assert(w.take(8) =~= w);
        }
    }

    /// Mark the OBJ window with the pixels of a line of a 4-bit tile.
    fn window_tile_4bpp(&mut self, x: i16, x_step: i16, tile_addr: usize, wout: u16)
        requires
            old(self).wf(),
            tile_addr + 4 <= 0x3_0000,
            x_step == 1 || x_step == -1,
            -0x1000 <= x <= 0x1000,
        ensures
            final(self).wf(),
            same_but_masks(*old(self), *final(self)),
            masks_of(*final(self)) == window_all(
                masks_of(*old(self)),
                wout,
                obj_window_writes(old(self).vram@, x as int, x_step as int, tile_addr as int, 1, false),
            ),
    {
        let ghost w = obj_window_writes(self.vram@, x as int, x_step as int, tile_addr as int, 1, false);
        proof {
            assert(w.take(0) =~= Seq::<(int, u8)>::empty());
        }
        let mut px = x;
        let mut idx: usize = 0;
        while idx < 4
            invariant
                self.wf(),
                tile_addr + 4 <= 0x3_0000,
                x_step == 1 || x_step == -1,
                -0x1000 <= x <= 0x1000,
                idx <= 4,
                px == x + 2 * idx * x_step,
                same_but_masks(*old(self), *self),
                w == obj_window_writes(old(self).vram@, x as int, x_step as int, tile_addr as int, 1, false),
                masks_of(*self) == window_all(masks_of(*old(self)), wout, w.take(2 * idx as int)),
            decreases 4 - idx,
        {
            let byte = self.vram(tile_addr + idx);
            self.set_window_pixel(px, byte % 16, wout);
            proof {
                assert(w.take(2 * idx + 1).drop_last() =~= w.take(2 * idx as int));
                assert(w.take(2 * idx + 1).last() == (px as int, byte % 16));
                assert(masks_of(*self) == window_all(masks_of(*old(self)), wout, w.take(2 * idx + 1)));
            }
            px = px + x_step;
            self.set_window_pixel(px, byte / 16, wout);
            proof {
                assert(w.take(2 * idx + 2).drop_last() =~= w.take(2 * idx + 1));
                assert(w.take(2 * idx + 2).last() == (px as int, byte / 16));
            }
            px = px + x_step;
            idx += 1;
        }
        proof {
            assert(w.take(8) =~= w);
        }
    }
}

/// The tiles of a line of a regular object, one after the other: tile `t`
/// is the next 8 pixels.
#[verifier::rlimit(30)]
proof fn lemma_obj_tile_step(vram: Seq<u8>, x0: int, step: int, line_addr0: int, count: int, bpp8: bool, t: int, xt: int)
    requires
        0 <= t < count,
        step == 1 || step == -1,
        xt == x0 + 8 * t * step,
    ensures
        ({
            let wl = obj_line_writes(vram, x0, step, line_addr0, count, bpp8);
            let part = if bpp8 {
                tile8_writes(vram, xt, step, line_addr0 + 64 * t)
            } else {
                tile4_writes(vram, xt, step, line_addr0 + 32 * t)
            };
            wl.take(8 * t) + part == wl.take(8 * t + 8)
        }),
{
    let wl = obj_line_writes(vram, x0, step, line_addr0, count, bpp8);
    let part = if bpp8 {
        tile8_writes(vram, xt, step, line_addr0 + 64 * t)
    } else {
        tile4_writes(vram, xt, step, line_addr0 + 32 * t)
    };
    assert forall|k: int| 0 <= k < 8 implies #[trigger] part[k] == wl[8 * t + k] by {
        assert((8 * t + k) % 8 == k);
        assert((8 * t + k) / 8 == t);
        assert(xt + k * step == x0 + (8 * t + k) * step) by (nonlinear_arith)
            requires
                xt == x0 + 8 * t * step,
        ;
    }
    assert(wl.take(8 * t) + part =~= wl.take(8 * t + 8));
}

/// The same for an object in the OBJ window.
#[verifier::rlimit(30)]
proof fn lemma_window_tile_step(vram: Seq<u8>, x0: int, step: int, tile_addr: int, count: int, bpp8: bool, t: int, xt: int)
    requires
        0 <= t < count,
        step == 1 || step == -1,
        xt == x0 + 8 * t * step,
    ensures
        ({
            let ww = obj_window_writes(vram, x0, step, tile_addr, count, bpp8);
            ww.take(8 * t) + obj_window_writes(vram, xt, step, tile_addr, 1, bpp8) == ww.take(8 * t + 8)
        }),
{
    let ww = obj_window_writes(vram, x0, step, tile_addr, count, bpp8);
    let part = obj_window_writes(vram, xt, step, tile_addr, 1, bpp8);
    assert forall|k: int| 0 <= k < 8 implies #[trigger] part[k] == ww[8 * t + k] by {
        assert((8 * t + k) % 8 == k);
        assert(k % 8 == k);
        assert((8 * t + k) % 2 == k % 2);
        assert(xt + k * step == x0 + (8 * t + k) * step) by (nonlinear_arith)
            requires
                xt == x0 + 8 * t * step,
        ;
    }
    assert(ww.take(8 * t) + part =~= ww.take(8 * t + 8));
}

impl Ppu {
    /// Draw line `line` of a regular (not affine) object, with DISPCNT,
    /// MOSAIC and WINOUT as given: into the object layer of its priority,
    /// or into the OBJ window.
    pub fn render_obj_regular(
        &mut self,
        dispcnt: u16,
        mosaic_reg: u16,
        wout: u16,
        line: u16,
        obj: Object,
        is_2d: bool,
    )
        requires
            old(self).wf(),
            obj.x < 0x200,
            mosaic_ok(obj, line, mosaic_reg),
        ensures
            final(self).wf(),
            regular_obj_post(*old(self), *final(self), dispcnt, mosaic_reg, wout, line, obj, is_2d),
    {
        proof {
            crate::bits::lemma_mask_bounds();
        }
        let size = obj.size();
        if !obj.draw_on(line, size.1 as u8) {
            return;
        }
        let (x0, x_step) = obj.signed_x::<true>();
        let obj_y = obj.y_on(line, mosaic_reg);
        let tile_y = obj_y % 8;

        let base_tile_idx = (obj.attr2 % 1024) as usize;
        let tile_count = size.0 / 8;
        let prio = (obj.attr2 / 1024) % 4;
        let mosaic = Self::bit(obj.attr2, 4);
        let is_window = Self::bit(dispcnt, 15) && (obj.attr0 / 4) % 4 == 2;
        let bpp8 = (obj.attr0 / 32) % 2 == 1;
        let oy = (obj_y / 8) as usize;
        let width = size.0 as usize;
        proof {
            assert(oy * width <= 7 * 64 && oy * (width / 8) <= 7 * 8 && oy * 32 <= 7 * 32) by (nonlinear_arith)
                requires
                    oy <= 7,
                    width <= 64,
            ;
        }
        let tile_addr = if bpp8 {
            0x1_0000 + if !is_2d {
                (base_tile_idx + (oy * width) / 8) * 64
            } else {
                (base_tile_idx + oy * 32) * 32
            }
        } else {
            0x1_0000 + (base_tile_idx + oy * if !is_2d {
                width / 8
            } else {
                32
            }) * 32
        };
        let palette = if bpp8 {
            0
        } else {
            (obj.attr2 / 4096) as u8
        };
        let tile_size: usize = if bpp8 {
            64
        } else {
            32
        };
        let line_addr0 = tile_addr + tile_y as usize * if bpp8 {
            8
        } else {
            4
        };
        self.render_obj_tiles(
            x0, x_step, tile_count, tile_addr, line_addr0, tile_size, bpp8, is_window, prio, palette, mosaic,
            mosaic_reg, wout,
        );
    }

    /// Draw the tiles of a line of a regular object (see
    /// `render_obj_regular`).
    fn render_obj_tiles(
        &mut self,
        x0: i16,
        x_step: i16,
        tile_count: u16,
        tile_addr: usize,
        line_addr0: usize,
        tile_size: usize,
        bpp8: bool,
        is_window: bool,
        prio: u16,
        palette: u8,
        mosaic: bool,
        mosaic_reg: u16,
        wout: u16,
    )
        requires
            old(self).wf(),
            tile_count <= 8,
            x_step == 1 || x_step == -1,
            -0x200 <= x0 <= 0x200,
            prio < 4,
            palette < 16,
            bpp8 ==> palette == 0,
            tile_addr + 8 <= 0x2_8000,
            tile_size == if bpp8 { 64int } else { 32int },
            line_addr0 + tile_size * tile_count <= 0x2_8000,
        ensures
            final(self).wf(),
            is_window ==> same_but_masks(*old(self), *final(self)) && masks_of(*final(self)) == window_all(
                masks_of(*old(self)),
                wout,
                obj_window_writes(old(self).vram@, x0 as int, x_step as int, tile_addr as int, tile_count as int, bpp8),
            ),
            !is_window ==> same_but_layers(*old(self), *final(self), true) && layers_of(*final(self), true)
                == draw_all(
                layers_of(*old(self), true),
                old(self).palette@,
                true,
                obj_line_writes(old(self).vram@, x0 as int, x_step as int, line_addr0 as int, tile_count as int, bpp8),
                prio as int,
                palette,
                mosaic,
                mosaic_reg,
            ),
    {
        let ghost count = tile_count as int;
        let ghost ww = obj_window_writes(self.vram@, x0 as int, x_step as int, tile_addr as int, count, bpp8);
        let ghost wl = obj_line_writes(self.vram@, x0 as int, x_step as int, line_addr0 as int, count, bpp8);
        proof {
            assert(ww.take(0) =~= Seq::<(int, u8)>::empty());
            assert(wl.take(0) =~= Seq::<(int, u8)>::empty());
        }
        let mut obj_x = x0;
        let mut tile_line_addr = line_addr0;
        let mut t: u16 = 0;
        while t < tile_count
            invariant
                self.wf(),
                tile_count == count,
                count <= 8,
                t <= tile_count,
                x_step == 1 || x_step == -1,
                -0x200 <= x0 <= 0x200,
                x_step == 1 ==> obj_x == x0 + 8 * t,
                x_step == -1 ==> obj_x == x0 - 8 * t,
                prio < 4,
                palette < 16,
                bpp8 ==> palette == 0,
                tile_addr + 8 <= 0x2_8000,
                tile_line_addr == line_addr0 + tile_size * t,
                line_addr0 + tile_size * count <= 0x2_8000,
                tile_size == if bpp8 { 64int } else { 32int },
                ww == obj_window_writes(old(self).vram@, x0 as int, x_step as int, tile_addr as int, count, bpp8),
                wl == obj_line_writes(old(self).vram@, x0 as int, x_step as int, line_addr0 as int, count, bpp8),
                is_window ==> same_but_masks(*old(self), *self) && masks_of(*self) == window_all(
                    masks_of(*old(self)),
                    wout,
                    ww.take(8 * t),
                ),
                !is_window ==> same_but_layers(*old(self), *self, true) && layers_of(*self, true) == draw_all(
                    layers_of(*old(self), true),
                    old(self).palette@,
                    true,
                    wl.take(8 * t),
                    prio as int,
                    palette,
                    mosaic,
                    mosaic_reg,
                ),
            decreases tile_count - t,
        {
            proof {
                assert(obj_x == x0 + 8 * t * x_step) by (nonlinear_arith)
                    requires
                        x_step == 1 ==> obj_x == x0 + 8 * t,
                        x_step == -1 ==> obj_x == x0 - 8 * t,
                        x_step == 1 || x_step == -1,
                ;
                assert(tile_line_addr + tile_size <= line_addr0 + tile_size * count) by (nonlinear_arith)
                    requires
                        tile_line_addr == line_addr0 + tile_size * t,
                        t < count,
                        tile_size >= 0,
                ;
            }
            if is_window {
                if bpp8 {
                    self.window_tile_8bpp(obj_x, x_step, tile_addr, wout);
                } else {
                    self.window_tile_4bpp(obj_x, x_step, tile_addr, wout);
                }
                proof {
                    lemma_window_tile_step(old(self).vram@, x0 as int, x_step as int, tile_addr as int, count, bpp8, t as int, obj_x as int);
                    lemma_window_all_append(
                        masks_of(*old(self)),
                        wout,
                        ww.take(8 * t),
                        obj_window_writes(old(self).vram@, obj_x as int, x_step as int, tile_addr as int, 1, bpp8),
                    );
                }
            } else {
                if bpp8 {
                    self.render_tile_8bpp::<true>(prio, obj_x, x_step, tile_line_addr, mosaic, mosaic_reg);
                } else {
                    self.render_tile_4bpp::<true>(prio, obj_x, x_step, tile_line_addr, palette, mosaic, mosaic_reg);
                }
                proof {
                    lemma_obj_tile_step(
                        old(self).vram@,
                        x0 as int,
                        x_step as int,
                        line_addr0 as int,
                        count,
                        bpp8,
                        t as int,
                        obj_x as int,
                    );
                    let part = if bpp8 {
                        tile8_writes(old(self).vram@, obj_x as int, x_step as int, tile_line_addr as int)
                    } else {
                        tile4_writes(old(self).vram@, obj_x as int, x_step as int, tile_line_addr as int)
                    };
                    lemma_draw_all_append(
                        layers_of(*old(self), true),
                        old(self).palette@,
                        true,
                        wl.take(8 * t),
                        part,
                        prio as int,
                        palette,
                        mosaic,
                        mosaic_reg,
                    );
                }
            }
            obj_x = obj_x + x_step * 8;
            tile_line_addr = tile_line_addr + tile_size;
            t += 1;
        }
        proof {
            assert(ww.take(8 * count) =~= ww);
            assert(wl.take(8 * count) =~= wl);
        }
    }
}

/// Parameters of an affine object's line: the four affine parameters,
/// the first on-screen pixel `start` of the object's `n` pixels on the
/// line from `obj_x`, the texture offsets `dx0` and `dy` of that pixel,
/// the texture centre `px0`, `py0`, and the texture's size.
pub struct AffineLine {
    pub r: Seq<int>,
    pub obj_x: int,
    pub start: int,
    pub n: int,
    pub dx0: int,
    pub dy: int,
    pub px0: int,
    pub py0: int,
    pub width: int,
    pub height: int,
}

/// Texture coordinates of the `i`-th on-screen pixel of an affine
/// object's line: the affine transform of its offset from the centre, in
/// 8.8 fixed point, rounded down.
pub open spec fn affine_coords(l: AffineLine, i: int) -> (int, int) {
    let dx = l.dx0 + i;
    ((l.r[0] * dx + l.r[1] * l.dy) / 256 + l.px0, (l.r[2] * dx + l.r[3] * l.dy) / 256 + l.py0)
}

/// The pixels of an affine object's line: the texture's colour where the
/// transformed coordinates fall inside it, index 0 (nothing) elsewhere.
pub open spec fn affine_writes(vram: Seq<u8>, l: AffineLine, base: int, is_2d: bool, bpp8: bool) -> Seq<(int, u8)> {
    Seq::new(
        l.n as nat,
        |i: int|
            {
                let (tx, ty) = affine_coords(l, i);
                (
                    l.obj_x + l.start + i,
                    if 0 <= tx < l.width && 0 <= ty < l.height {
                        affine_pixel(vram, base, l.width, tx, ty, is_2d, bpp8)
                    } else {
                        0
                    },
                )
            },
    )
}

/// The line parameters of affine object `obj` on `line`.
pub open spec fn affine_line(oam: Seq<u8>, obj: Object, line: u16, size_2x: bool) -> AffineLine {
    let w = obj_x_size(obj.size_index()) as int;
    let h = obj_y_size(obj.size_index()) as int;
    let obj_x = signed_x_spec(obj, false).0 as int;
    let obj_width = w * if size_2x { 2int } else { 1int };
    let start = if obj_x < 0 { -obj_x } else { 0 };
    let end = if obj_width < 240 - obj_x { obj_width } else { 240 - obj_x };
    let g = ((obj.attr1 / 2) % 32) as int;
    AffineLine {
        r: Seq::new(4, |k: int| sext16((oam[32 * g + 6 + 8 * k] + oam[32 * g + 7 + 8 * k] * 256) as u16)),
        obj_x,
        start,
        n: if end > start { end - start } else { 0 },
        dx0: if size_2x { -w } else { -(w / 2) },
        dy: line_offset(line, obj.y) - if size_2x { h } else { h / 2 },
        px0: w / 2,
        py0: h / 2,
        width: w,
        height: h,
    }
}

/// State after drawing an affine object on `line`: nothing if it is not
/// on the line (its box is twice its size with `size_2x`); else its pixels
/// of the line go to the OBJ window or to the object layer of its
/// priority, without mosaic.
pub open spec fn affine_obj_post(
    before: Ppu,
    after: Ppu,
    dispcnt: u16,
    wout: u16,
    line: u16,
    obj: Object,
    is_2d: bool,
    size_2x: bool,
) -> bool {
    let h = obj_y_size(obj.size_index());
    let drawn = (obj.attr0 / 8) % 4 != 3 && obj.attr0 / 64 != 3 && line_offset(line, obj.y) < if size_2x {
        h * 2
    } else {
        h as int
    };
    let bpp8 = (obj.attr0 / 32) % 2 == 1;
    let w = affine_writes(before.vram@, affine_line(before.oam@, obj, line, size_2x), (obj.attr2 % 1024) as int, is_2d, bpp8);
    let is_window = reg_bit(dispcnt, 15) && (obj.attr0 / 4) % 4 == 2;
    if !drawn {
        after == before
    } else if is_window {
        &&& same_but_masks(before, after)
        &&& masks_of(after) == window_all(masks_of(before), wout, w)
    } else {
        &&& same_but_layers(before, after, true)
        &&& layers_of(after, true) == draw_all(
            layers_of(before, true),
            before.palette@,
            true,
            w,
            ((obj.attr2 / 1024) % 4) as int,
            if bpp8 { 0 } else { (obj.attr2 / 4096) as u8 },
            false,
            0,
        )
    }
}

/// Texture coordinates of a pixel `dx`, `dy` from an affine object's
/// centre `px0`, `py0`, with affine parameters `r` (8.8 fixed point).
fn transform(r: [i32; 4], dx: i32, dy: i32, px0: u16, py0: u16) -> (t: (i32, i32))
    requires
        forall|k: int| 0 <= k < 4 ==> -32768 <= #[trigger] r[k] <= 32767,
        -128 <= dx <= 128,
        -128 <= dy <= 128,
        px0 <= 64,
        py0 <= 64,
    ensures
        t.0 == (r[0] * dx + r[1] * dy) / 256 + px0,
        t.1 == (r[2] * dx + r[3] * dy) / 256 + py0,
        -0x1_0000 < t.0 < 0x1_0000,
        -0x1_0000 < t.1 < 0x1_0000,
{
    proof {
        assert(-0x40_0000 <= r[0] * dx <= 0x40_0000 && -0x40_0000 <= r[1] * dy <= 0x40_0000 && -0x40_0000 <= r[2]
            * dx <= 0x40_0000 && -0x40_0000 <= r[3] * dy <= 0x40_0000) by (nonlinear_arith)
            requires
                -32768 <= r[0] <= 32767 && -32768 <= r[1] <= 32767,
                -32768 <= r[2] <= 32767 && -32768 <= r[3] <= 32767,
                -128 <= dx <= 128,
                -128 <= dy <= 128,
        ;
    }
    // An arithmetic shift right by 8: floor division by 256.
    let tx = (r[0] * dx + r[1] * dy + 0x100_0000) / 256 - 0x1_0000 + px0 as i32;
    let ty = (r[2] * dx + r[3] * dy + 0x100_0000) / 256 - 0x1_0000 + py0 as i32;
    (tx, ty)
}

impl Ppu {
    /// Draw one object pixel: into the OBJ window, or into the object
    /// layer of priority `prio` without mosaic.
    fn draw_obj_pixel(&mut self, is_window: bool, x: i16, colour: u8, prio: u16, palette: u8, wout: u16)
        requires
            old(self).wf(),
            prio < 4,
            palette < 16,
            palette * 16 + colour <= 255,
        ensures
            final(self).wf(),
            is_window ==> same_but_masks(*old(self), *final(self)) && masks_of(*final(self)) == put_window(
                masks_of(*old(self)),
                wout,
                x as int,
                colour,
            ),
            !is_window ==> same_but_layers(*old(self), *final(self), true) && layers_of(*final(self), true)
                == put_pixel(layers_of(*old(self), true), old(self).palette@, true, x as int, prio as int, palette, colour, false, 0),
    {
        if is_window {
            self.set_window_pixel(x, colour, wout);
        } else {
            proof {
                lemma_palette_shift(palette);
            }
            self.set_pixel::<true>(x, prio, palette, colour, false, 0);
        }
    }

    /// Draw line `line` of an affine object, with DISPCNT and WINOUT as
    /// given; `size_2x` doubles the box it is drawn in.
    #[verifier::rlimit(40)]
    pub fn render_obj_affine(&mut self, dispcnt: u16, wout: u16, line: u16, obj: Object, is_2d: bool, size_2x: bool)
        requires
            old(self).wf(),
            obj.x < 0x200,
        ensures
            final(self).wf(),
            affine_obj_post(*old(self), *final(self), dispcnt, wout, line, obj, is_2d, size_2x),
    {
        let size = obj.size();
        let box_h: u16 = if size_2x {
            size.1 * 2
        } else {
            size.1
        };
        if !obj.draw_on(line, box_h as u8) {
            return;
        }
        let ghost l = affine_line(self.oam@, obj, line, size_2x);
        let px0 = size.0 / 2;
        let py0 = size.1 / 2;
        let offs = ((line % 256) as u8).wrapping_sub(obj.y) as i32;
        let (dx_start, dy) = if !size_2x {
            (-(px0 as i32), offs - py0 as i32)
        } else {
            (-(size.0 as i32), offs - (size.1 as i32))
        };
        let (obj_x, _) = obj.signed_x::<false>();
        let obj_width = size.0 * (1 + if size_2x {
            1
        } else {
            0
        });

        let base_tile_idx = (obj.attr2 % 1024) as usize;
        let prio = (obj.attr2 / 1024) % 4;
        let rotscal = self.get_rotscal(((obj.attr1 / 2) % 32) as u8);
        let is_8bpp = (obj.attr0 / 32) % 2 == 1;
        let palette = if is_8bpp {
            0
        } else {
            (obj.attr2 / 4096) as u8
        };
        let is_window = Self::bit(dispcnt, 15) && (obj.attr0 / 4) % 4 == 2;
        proof {
            assert(l.r =~= Seq::new(4, |k: int| rotscal[k] as int));
        }
        self.affine_line_pixels(
            rotscal, obj_x, obj_width, dx_start, dy, size, base_tile_idx, is_2d, is_8bpp, is_window, prio, palette,
            wout, Ghost(l),
        );
    }

    /// Draw the pixels of an affine object's line `l`.
    fn affine_line_pixels(
        &mut self,
        rotscal: [i32; 4],
        obj_x: i16,
        obj_width: u16,
        dx_start: i32,
        dy: i32,
        size: (u16, u16),
        base_tile_idx: usize,
        is_2d: bool,
        is_8bpp: bool,
        is_window: bool,
        prio: u16,
        palette: u8,
        wout: u16,
        l: Ghost<AffineLine>,
    )
        requires
            old(self).wf(),
            l@.r =~= Seq::new(4, |k: int| rotscal[k] as int),
            forall|k: int| 0 <= k < 4 ==> -32768 <= #[trigger] rotscal[k] <= 32767,
            l@.obj_x == obj_x,
            l@.start == if obj_x < 0 { -obj_x } else { 0 },
            l@.n == (if (if obj_width < 240 - obj_x { obj_width as int } else { 240 - obj_x }) > l@.start {
                (if obj_width < 240 - obj_x { obj_width as int } else { 240 - obj_x }) - l@.start
            } else {
                0
            }),
            l@.width == size.0 && l@.height == size.1,
            size.0 <= 64 && size.1 <= 64,
            l@.px0 == size.0 / 2 && l@.py0 == size.1 / 2,
            l@.dy == dy,
            -64 <= dy <= 128,
            l@.dx0 == dx_start,
            -64 <= dx_start <= 0,
            obj_width <= 128,
            -256 <= obj_x <= 255,
            prio < 4,
            palette < 16,
            is_8bpp ==> palette == 0,
            base_tile_idx < 1024,
        ensures
            final(self).wf(),
            ({
                let w = affine_writes(old(self).vram@, l@, base_tile_idx as int, is_2d, is_8bpp);
                &&& is_window ==> same_but_masks(*old(self), *final(self)) && masks_of(*final(self)) == window_all(
                    masks_of(*old(self)),
                    wout,
                    w,
                )
                &&& !is_window ==> same_but_layers(*old(self), *final(self), true) && layers_of(*final(self), true)
                    == draw_all(layers_of(*old(self), true), old(self).palette@, true, w, prio as int, palette, false, 0)
            }),
    {
        let ghost w = affine_writes(self.vram@, l@, base_tile_idx as int, is_2d, is_8bpp);
        proof {
            assert(w.take(0) =~= Seq::<(int, u8)>::empty());
        }
        let px0 = size.0 / 2;
        let py0 = size.1 / 2;
        let mut dx = dx_start;
        let mut x: u16 = 0;
        while x < obj_width && obj_x as i32 + (x as i32) < 240
            invariant
                self.wf(),
                w == affine_writes(old(self).vram@, l@, base_tile_idx as int, is_2d, is_8bpp),
                l@.r =~= Seq::new(4, |k: int| rotscal[k] as int),
                forall|k: int| 0 <= k < 4 ==> -32768 <= #[trigger] rotscal[k] <= 32767,
                l@.obj_x == obj_x,
                l@.start == if obj_x < 0 { -obj_x } else { 0 },
                l@.n == (if (if obj_width < 240 - obj_x { obj_width as int } else { 240 - obj_x }) > l@.start {
                    (if obj_width < 240 - obj_x { obj_width as int } else { 240 - obj_x }) - l@.start
                } else {
                    0
                }),
                l@.width == size.0 && l@.height == size.1,
                size.0 <= 64 && size.1 <= 64,
                l@.px0 == px0 && l@.py0 == py0 && px0 <= 32 && py0 <= 32,
                l@.dy == dy,
                -64 <= dy <= 128,
                -64 <= l@.dx0 <= 0,
                obj_width <= 128,
                -256 <= obj_x <= 255,
                x <= obj_width,
                x as int <= l@.start ==> dx == l@.dx0,
                x as int > l@.start ==> dx == l@.dx0 + x - l@.start,
                prio < 4,
                palette < 16,
                is_8bpp ==> palette == 0,
                base_tile_idx < 1024,
                x > 0 ==> obj_x + x <= 240,
                ({
                    let done = if x as int <= l@.start { 0int } else { x - l@.start };
                    &&& is_window ==> same_but_masks(*old(self), *self) && masks_of(*self) == window_all(
                        masks_of(*old(self)),
                        wout,
                        w.take(done),
                    )
                    &&& !is_window ==> same_but_layers(*old(self), *self, true) && layers_of(*self, true)
                        == draw_all(
                        layers_of(*old(self), true),
                        old(self).palette@,
                        true,
                        w.take(done),
                        prio as int,
                        palette,
                        false,
                        0,
                    )
                }),
            decreases obj_width - x,
        {
            let pixel_x = obj_x + x as i16;
            if pixel_x >= 0 {
                let ghost i = x - l@.start;
                let (tx, ty) = transform(rotscal, dx, dy, px0, py0);
                dx += 1;
                let mut colour: u8 = 0;
                if 0 <= tx && tx < size.0 as i32 && 0 <= ty && ty < size.1 as i32 {
                    colour = self.get_affine_pixel(base_tile_idx, size, tx as u16, ty as u16, is_2d, is_8bpp);
                }
                self.draw_obj_pixel(is_window, pixel_x, colour, prio, palette, wout);
                proof {
                    assert(affine_coords(l@, i) == (tx as int, ty as int));
                    assert(w.take(i + 1).drop_last() =~= w.take(i));
                    assert(w.take(i + 1).last() == (pixel_x as int, colour));
                }
            }
            x += 1;
        }
        proof {
            assert(w.take(l@.n) =~= w);
        }
    }
}

/// The object layers and the OBJ window masks: what drawing objects
/// changes.
pub struct ObjView {
    pub layers: Seq<Seq<Seq<u8>>>,
    pub masks: Seq<Seq<bool>>,
}

/// The object layers and OBJ window masks of a PPU.
pub open spec fn obj_view(p: Ppu) -> ObjView {
    ObjView { layers: layers_of(p, true), masks: masks_of(p) }
}

/// Everything but the object layers and the window masks stays.
pub open spec fn same_but_obj_view(before: Ppu, after: Ppu) -> bool {
    &&& after.palette == before.palette && after.vram == before.vram
    &&& after.oam == before.oam && after.pixels == before.pixels
    &&& after.bg_layers == before.bg_layers
    &&& after.bg_x == before.bg_x && after.bg_y == before.bg_y
    &&& after.last_frame == before.last_frame
}

/// The object at `idx` of OAM.
pub open spec fn object_at(oam: Seq<u8>, idx: int) -> Object {
    Object {
        x: (oam[idx * 8 + 2] + (oam[idx * 8 + 3] % 2) * 256) as u16,
        y: oam[idx * 8],
        attr0: oam[idx * 8 + 1],
        attr1: oam[idx * 8 + 3],
        attr2: (oam[idx * 8 + 4] + oam[idx * 8 + 5] * 256) as u16,
    }
}

/// What drawing a regular object on `line` does to the object layers and
/// window masks `v` (see `regular_obj_post`).
pub open spec fn regular_view(p: Ppu, v: ObjView, dispcnt: u16, mosaic_reg: u16, wout: u16, line: u16, obj: Object, is_2d: bool) -> ObjView {
    let width = obj_x_size(obj.size_index());
    let height = obj_y_size(obj.size_index());
    let drawn = (obj.attr0 / 8) % 4 != 3 && obj.attr0 / 64 != 3 && line_offset(line, obj.y) < height;
    let (x0, step) = signed_x_spec(obj, true);
    let obj_y = y_on_spec(obj, line, mosaic_reg);
    let bpp8 = (obj.attr0 / 32) % 2 == 1;
    let tile_addr = obj_tile_addr((obj.attr2 % 1024) as int, obj_y as int, width as int, is_2d, bpp8);
    let line_addr = tile_addr + (obj_y % 8) * if bpp8 { 8int } else { 4int };
    let count = (width / 8) as int;
    let is_window = reg_bit(dispcnt, 15) && (obj.attr0 / 4) % 4 == 2;
    if !drawn {
        v
    } else if is_window {
        ObjView {
            masks: window_all(v.masks, wout, obj_window_writes(p.vram@, x0 as int, step as int, tile_addr, count, bpp8)),
            ..v
        }
    } else {
        ObjView {
            layers: draw_all(
                v.layers,
                p.palette@,
                true,
                obj_line_writes(p.vram@, x0 as int, step as int, line_addr, count, bpp8),
                ((obj.attr2 / 1024) % 4) as int,
                if bpp8 { 0 } else { (obj.attr2 / 4096) as u8 },
                reg_bit(obj.attr2, 4),
                mosaic_reg,
            ),
            ..v
        }
    }
}

/// What drawing an affine object on `line` does to the object layers and
/// window masks `v` (see `affine_obj_post`).
pub open spec fn affine_view(p: Ppu, v: ObjView, dispcnt: u16, wout: u16, line: u16, obj: Object, is_2d: bool, size_2x: bool) -> ObjView {
    let h = obj_y_size(obj.size_index());
    let drawn = (obj.attr0 / 8) % 4 != 3 && obj.attr0 / 64 != 3 && line_offset(line, obj.y) < if size_2x {
        h * 2
    } else {
        h as int
    };
    let bpp8 = (obj.attr0 / 32) % 2 == 1;
    let w = affine_writes(p.vram@, affine_line(p.oam@, obj, line, size_2x), (obj.attr2 % 1024) as int, is_2d, bpp8);
    let is_window = reg_bit(dispcnt, 15) && (obj.attr0 / 4) % 4 == 2;
    if !drawn {
        v
    } else if is_window {
        ObjView { masks: window_all(v.masks, wout, w), ..v }
    } else {
        ObjView {
            layers: draw_all(
                v.layers,
                p.palette@,
                true,
                w,
                ((obj.attr2 / 1024) % 4) as int,
                if bpp8 { 0 } else { (obj.attr2 / 4096) as u8 },
                false,
                0,
            ),
            ..v
        }
    }
}

/// What drawing an object does, by its mode in the low bits of `attr0`:
/// regular, affine, disabled, or affine in a box twice its size.
pub open spec fn obj_view_step(p: Ppu, v: ObjView, dispcnt: u16, mosaic_reg: u16, wout: u16, line: u16, obj: Object, is_2d: bool) -> ObjView {
    let mode = obj.attr0 % 4;
    if mode == 0 {
        regular_view(p, v, dispcnt, mosaic_reg, wout, line, obj, is_2d)
    } else if mode == 1 {
        affine_view(p, v, dispcnt, wout, line, obj, is_2d, false)
    } else if mode == 3 {
        affine_view(p, v, dispcnt, wout, line, obj, is_2d, true)
    } else {
        v
    }
}

/// The object layers and window masks after drawing the first `k` objects
/// of OAM in order.
pub open spec fn objs_fold(p: Ppu, k: int, dispcnt: u16, mosaic_reg: u16, wout: u16, line: u16, is_2d: bool) -> ObjView
    decreases k,
{
    if k <= 0 {
        obj_view(p)
    } else {
        obj_view_step(
            p,
            objs_fold(p, k - 1, dispcnt, mosaic_reg, wout, line, is_2d),
            dispcnt,
            mosaic_reg,
            wout,
            line,
            object_at(p.oam@, k - 1),
            is_2d,
        )
    }
}

/// Every object of OAM that is drawn on `line` with mosaic finds a
/// vertical mosaic size.
pub open spec fn all_mosaic_ok(oam: Seq<u8>, line: u16, mosaic_reg: u16) -> bool {
    forall|i: int| 0 <= i < 128 ==> #[trigger] object_at(oam, i).attr0 % 4 == 0 ==> mosaic_ok(object_at(oam, i), line, mosaic_reg)
}

/// State after drawing the objects on `line`.
pub open spec fn objs_post(before: Ppu, after: Ppu, dispcnt: u16, mosaic_reg: u16, wout: u16, line: u16) -> bool {
    &&& !reg_bit(dispcnt, 12) ==> after == before
    &&& reg_bit(dispcnt, 12) ==> same_but_obj_view(before, after) && obj_view(after)
        == objs_fold(before, 128, dispcnt, mosaic_reg, wout, line, !reg_bit(dispcnt, 6))
}

impl Ppu {
    /// Draw line `line` of an object, by its mode.
    pub fn render_obj(&mut self, dispcnt: u16, mosaic_reg: u16, wout: u16, line: u16, obj: Object, is_2d: bool)
        requires
            old(self).wf(),
            obj.x < 0x200,
            obj.attr0 % 4 == 0 ==> mosaic_ok(obj, line, mosaic_reg),
        ensures
            final(self).wf(),
            same_but_obj_view(*old(self), *final(self)),
            obj_view(*final(self)) == obj_view_step(
                *old(self),
                obj_view(*old(self)),
                dispcnt,
                mosaic_reg,
                wout,
                line,
                obj,
                is_2d,
            ),
    {
        let mode = obj.attr0 % 4;
        if mode == 0 {
            self.render_obj_regular(dispcnt, mosaic_reg, wout, line, obj, is_2d);
        } else if mode == 1 {
            self.render_obj_affine(dispcnt, wout, line, obj, is_2d, false);
        } else if mode == 3 {
            self.render_obj_affine(dispcnt, wout, line, obj, is_2d, true);
        }
        // OBJ disable on a regular OBJ
    }

    /// Draw line `line` of all objects of OAM, in order, if DISPCNT enables
    /// objects; with MOSAIC and WINOUT as given.
    pub fn render_objs(&mut self, dispcnt: u16, mosaic_reg: u16, wout: u16, line: u16)
        requires
            old(self).wf(),
            all_mosaic_ok(old(self).oam@, line, mosaic_reg),
        ensures
            final(self).wf(),
            objs_post(*old(self), *final(self), dispcnt, mosaic_reg, wout, line),
    {
        if !Self::bit(dispcnt, 12) {
            return;
        }
        let is_2d = !Self::bit(dispcnt, 6);
        let mut idx: usize = 0;
        while idx < 128
            invariant
                self.wf(),
                idx <= 128,
                is_2d == !reg_bit(dispcnt, 6),
                same_but_obj_view(*old(self), *self),
                all_mosaic_ok(old(self).oam@, line, mosaic_reg),
                obj_view(*self) == objs_fold(*old(self), idx as int, dispcnt, mosaic_reg, wout, line, is_2d),
            decreases 128 - idx,
        {
            let obj = self.read_object(idx);
            proof {
                assert(obj == object_at(old(self).oam@, idx as int));
                assert(object_at(old(self).oam@, idx as int).attr0 % 4 == 0 ==> mosaic_ok(obj, line, mosaic_reg));
            }
            let ghost before = *self;
            self.render_obj(dispcnt, mosaic_reg, wout, line, obj, is_2d);
            proof {
                lemma_obj_view_step_same(*old(self), before, obj_view(before), dispcnt, mosaic_reg, wout, line, obj, is_2d);
            }
            idx += 1;
        }
    }
}

/// A step depends on the PPU only through palette, VRAM and OAM.
proof fn lemma_obj_view_step_same(
    p: Ppu,
    q: Ppu,
    v: ObjView,
    dispcnt: u16,
    mosaic_reg: u16,
    wout: u16,
    line: u16,
    obj: Object,
    is_2d: bool,
)
    requires
        same_but_obj_view(p, q),
    ensures
        obj_view_step(p, v, dispcnt, mosaic_reg, wout, line, obj, is_2d) == obj_view_step(
            q,
            v,
            dispcnt,
            mosaic_reg,
            wout,
            line,
            obj,
            is_2d,
        ),
{
}

} // verus!

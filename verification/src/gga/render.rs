//! Drawing a line of the GGA's screen: the window masks, the layers of the
//! current video mode (backgrounds and objects), and the line composed
//! from them.
use vstd::prelude::*;
use crate::common::Colour;
use crate::gga::graphics::{
    bitmap3_post, bitmap4_post, bitmap5_post, bitmap_start, finish_post, reg_bit, windows_post, Ppu,
};
use crate::gga::cartridge::KB;
use crate::gga::objects::{all_mosaic_ok, mosaic_ok, object_at, objs_post};
use crate::gga::tile::{affine_bg_post, text_post};

verus! {

/// The PPU registers a line is drawn with.
#[derive(Copy, Clone)]
pub struct LineRegs {
    pub dispcnt: u16,
    /// BG0CNT to BG3CNT.
    pub bgcnt: [u16; 4],
    /// BG0HOFS to BG3HOFS.
    pub hofs: [u16; 4],
    /// BG0VOFS to BG3VOFS.
    pub vofs: [u16; 4],
    /// PA, PB, PC and PD of BG2, then of BG3.
    pub affine: [[u16; 4]; 2],
    pub mosaic: u16,
    pub winin: u16,
    pub winout: u16,
    /// WIN0H and WIN1H.
    pub winh: [u16; 2],
    /// WIN0V and WIN1V.
    pub winv: [u16; 2],
}

impl LineRegs {
    /// The registers from the PPU's I/O block, one entry per halfword from
    /// DISPCNT (0x4000000) up to below 0x4000056.
    pub fn from_mmio(mmio: &[u16; 43]) -> (r: LineRegs)
        ensures
            r.dispcnt == mmio[0],
            forall|i: int| 0 <= i < 4 ==> r.bgcnt[i] == mmio[4 + i],
            forall|i: int| 0 <= i < 4 ==> r.hofs[i] == mmio[8 + 2 * i] && r.vofs[i] == mmio[9 + 2 * i],
            forall|b: int, j: int| 0 <= b < 2 && 0 <= j < 4 ==> r.affine[b][j] == mmio[16 + 8 * b + j],
            r.winh[0] == mmio[32] && r.winh[1] == mmio[33],
            r.winv[0] == mmio[34] && r.winv[1] == mmio[35],
            r.winin == mmio[36] && r.winout == mmio[37],
            r.mosaic == mmio[38],
    {
        LineRegs {
            dispcnt: mmio[0],
            bgcnt: [mmio[4], mmio[5], mmio[6], mmio[7]],
            hofs: [mmio[8], mmio[10], mmio[12], mmio[14]],
            vofs: [mmio[9], mmio[11], mmio[13], mmio[15]],
            affine: [[mmio[16], mmio[17], mmio[18], mmio[19]], [mmio[24], mmio[25], mmio[26], mmio[27]]],
            mosaic: mmio[38],
            winin: mmio[36],
            winout: mmio[37],
            winh: [mmio[32], mmio[33]],
            winv: [mmio[34], mmio[35]],
        }
    }
}

/// A text background can be drawn: its horizontal scroll leaves room for
/// the line.
pub open spec fn text_ok(r: LineRegs, i: int) -> bool {
    r.hofs[i] < 0x8000 ==> r.hofs[i] + 240 < 0x8000
}

/// An affine background can be drawn: its reference point is in range.
pub open spec fn affine_ok(p: Ppu, i: int) -> bool {
    &&& -0x4000_0000 <= p.bg_x[i] <= 0x4000_0000
    &&& -0x4000_0000 <= p.bg_y[i] <= 0x4000_0000
}

/// What the line's mode needs to be drawn.
pub open spec fn mode_ok(p: Ppu, r: LineRegs, line: u16) -> bool {
    let mode = r.dispcnt % 8;
    &&& all_mosaic_ok(p.oam@, line, r.mosaic)
    &&& mode == 0 ==> text_ok(r, 0) && text_ok(r, 1) && text_ok(r, 2) && text_ok(r, 3)
    &&& mode == 1 ==> text_ok(r, 0) && text_ok(r, 1) && affine_ok(p, 0)
    &&& mode == 2 ==> affine_ok(p, 0) && affine_ok(p, 1)
    &&& mode == 5 && line <= 127 && (r.dispcnt / 0x400) % 2 == 1 ==> (bitmap_start(r.dispcnt) + line * 160 + 159)
        * 2 + 1 < 96 * KB
}

/// Objects of `line`.
pub open spec fn objs_of(b: Ppu, a: Ppu, r: LineRegs, line: u16) -> bool {
    objs_post(b, a, r.dispcnt, r.mosaic, r.winout, line)
}

/// Text background `i` of `line`.
pub open spec fn text_of(b: Ppu, a: Ppu, r: LineRegs, i: int, line: u16) -> bool {
    text_post(b, a, i as u16, r.dispcnt, r.bgcnt[i], r.hofs[i], r.vofs[i], r.mosaic, line)
}

/// Affine background `i` (2 or 3).
pub open spec fn affine_of(b: Ppu, a: Ppu, r: LineRegs, i: int) -> bool {
    affine_bg_post(b, a, i as u16, r.dispcnt, r.bgcnt[i], r.affine[i - 2], r.mosaic)
}

/// State after drawing the layers of `line` in the mode DISPCNT selects:
/// mode 0, objects and four text backgrounds; mode 1, objects, two text
/// backgrounds and an affine one; mode 2, objects and two affine
/// backgrounds; modes 3 to 5, a bitmap and objects; other modes draw
/// nothing.
pub open spec fn mode_post(b: Ppu, a: Ppu, r: LineRegs, line: u16) -> bool {
    let mode = r.dispcnt % 8;
    if mode == 0 {
        exists|o: Ppu, t0: Ppu, t1: Ppu, t2: Ppu|
            #![trigger objs_of(b, o, r, line), text_of(o, t0, r, 0, line), text_of(t0, t1, r, 1, line), text_of(t1, t2, r, 2, line)]
            objs_of(b, o, r, line) && text_of(o, t0, r, 0, line) && text_of(t0, t1, r, 1, line) && text_of(
                t1,
                t2,
                r,
                2,
                line,
            ) && text_of(t2, a, r, 3, line)
    } else if mode == 1 {
        exists|o: Ppu, t0: Ppu, t1: Ppu|
            #![trigger objs_of(b, o, r, line), text_of(o, t0, r, 0, line), text_of(t0, t1, r, 1, line)]
            objs_of(b, o, r, line) && text_of(o, t0, r, 0, line) && text_of(t0, t1, r, 1, line) && affine_of(
                t1,
                a,
                r,
                2,
            )
    } else if mode == 2 {
        exists|o: Ppu, t2: Ppu|
            #![trigger objs_of(b, o, r, line), affine_of(o, t2, r, 2)]
            objs_of(b, o, r, line) && affine_of(o, t2, r, 2) && affine_of(t2, a, r, 3)
    } else if mode == 3 {
        exists|m: Ppu| #![trigger bitmap3_post(b, m, r.dispcnt, line)] bitmap3_post(b, m, r.dispcnt, line) && objs_of(m, a, r, line)
    } else if mode == 4 {
        exists|m: Ppu| #![trigger bitmap4_post(b, m, r.dispcnt, line)] bitmap4_post(b, m, r.dispcnt, line) && objs_of(m, a, r, line)
    } else if mode == 5 {
        exists|m: Ppu| #![trigger bitmap5_post(b, m, r.dispcnt, line)] bitmap5_post(b, m, r.dispcnt, line) && objs_of(m, a, r, line)
    } else {
        a == b
    }
}

impl Ppu {
    /// If `render_line` can draw `line` with these registers: every object
    /// with vertical mosaic on the line needs a mosaic size, text
    /// backgrounds a horizontal scroll that leaves room for the line, affine
    /// ones a reference point in range, and mode 5 its frame in VRAM.
    pub fn line_drawable(&self, r: &LineRegs, line: u16) -> (b: bool)
        requires
            self.wf(),
        ensures
            b == (line < 160 && !reg_bit(r.dispcnt, 7) ==> mode_ok(*self, *r, line)),
    {
        if line >= 160 || Self::bit(r.dispcnt, 7) {
            return true;
        }
        let mut idx: usize = 0;
        while idx < 128
            invariant
                self.wf(),
                idx <= 128,
                line < 160 && !reg_bit(r.dispcnt, 7),
                forall|i: int| 0 <= i < idx ==> #[trigger] object_at(self.oam@, i).attr0 % 4 == 0 ==> mosaic_ok(
                    object_at(self.oam@, i),
                    line,
                    r.mosaic,
                ),
            decreases 128 - idx,
        {
            let obj = self.read_object(idx);
            proof {
                assert(obj == object_at(self.oam@, idx as int));
            }
            if obj.attr0 % 4 == 0 && (obj.attr0 / 16) % 2 == 1 {
                let size = obj.size();
                proof {
                    assert(size.1 <= 64);
                }
                if obj.draw_on(line, size.1 as u8) && r.mosaic / 0x1000 == 0 {
                    proof {
                        let o = object_at(self.oam@, idx as int);
                        assert(!mosaic_ok(o, line, r.mosaic));
                        assert(o.attr0 % 4 == 0);
                        assert(!all_mosaic_ok(self.oam@, line, r.mosaic));
                    }
                    return false;
                }
            }
            idx += 1;
        }
        let mode = r.dispcnt % 8;
        let text_fits = |i: usize| -> (ok: bool)
            requires
                i < 4,
            ensures
                ok == text_ok(*r, i as int),
            { r.hofs[i] >= 0x8000 || r.hofs[i] + 240 < 0x8000 };
        let affine_fits = |i: usize| -> (ok: bool)
            requires
                i < 2,
            ensures
                ok == affine_ok(*self, i as int),
            {
                -0x4000_0000 <= self.bg_x[i] && self.bg_x[i] <= 0x4000_0000 && -0x4000_0000 <= self.bg_y[i]
                    && self.bg_y[i] <= 0x4000_0000
            };
        if mode == 0 {
            text_fits(0) && text_fits(1) && text_fits(2) && text_fits(3)
        } else if mode == 1 {
            text_fits(0) && text_fits(1) && affine_fits(0)
        } else if mode == 2 {
            affine_fits(0) && affine_fits(1)
        } else if mode == 5 && line <= 127 && (r.dispcnt / 0x400) % 2 == 1 {
            (Self::bitmap_start_addr(r.dispcnt) + line as usize * 160 + 159) * 2 + 1 < 96 * KB
        } else {
            true
        }
    }

    /// Draw the layers of `line` in the mode DISPCNT selects.
    pub fn render_mode(&mut self, r: &LineRegs, line: u16)
        requires
            old(self).wf(),
            line < 160,
            mode_ok(*old(self), *r, line),
        ensures
            final(self).wf(),
            mode_post(*old(self), *final(self), *r, line),
    {
        let mode = r.dispcnt % 8;
        if mode == 0 {
            self.render_mode0(r, line);
        } else if mode == 1 {
            self.render_mode1(r, line);
        } else if mode == 2 {
            self.render_mode2(r, line);
        } else if mode == 3 {
            self.render_mode3(r, line);
        } else if mode == 4 {
            self.render_mode4(r, line);
        } else if mode == 5 {
            self.render_mode5(r, line);
        }
        // Modes 6 and 7 are invalid: nothing is drawn.
    }

    /// Mode 0: objects, then text backgrounds 0 to 3.
    pub fn render_mode0(&mut self, r: &LineRegs, line: u16)
        requires
            old(self).wf(),
            all_mosaic_ok(old(self).oam@, line, r.mosaic),
            text_ok(*r, 0) && text_ok(*r, 1) && text_ok(*r, 2) && text_ok(*r, 3),
        ensures
            final(self).wf(),
            r.dispcnt % 8 == 0 ==> mode_post(*old(self), *final(self), *r, line),
    {
        self.render_objs(r.dispcnt, r.mosaic, r.winout, line);
        let ghost o = *self;
        self.render_bg_text::<0>(r.dispcnt, r.bgcnt[0], r.hofs[0], r.vofs[0], r.mosaic, line);
        let ghost t0 = *self;
        self.render_bg_text::<1>(r.dispcnt, r.bgcnt[1], r.hofs[1], r.vofs[1], r.mosaic, line);
        let ghost t1 = *self;
        self.render_bg_text::<2>(r.dispcnt, r.bgcnt[2], r.hofs[2], r.vofs[2], r.mosaic, line);
        let ghost t2 = *self;
        self.render_bg_text::<3>(r.dispcnt, r.bgcnt[3], r.hofs[3], r.vofs[3], r.mosaic, line);
        proof {
            assert(objs_of(*old(self), o, *r, line) && text_of(o, t0, *r, 0, line) && text_of(t0, t1, *r, 1, line)
                && text_of(t1, t2, *r, 2, line) && text_of(t2, *self, *r, 3, line));
        }
    }

    /// Mode 1: objects, text backgrounds 0 and 1, affine background 2.
    pub fn render_mode1(&mut self, r: &LineRegs, line: u16)
        requires
            old(self).wf(),
            all_mosaic_ok(old(self).oam@, line, r.mosaic),
            text_ok(*r, 0) && text_ok(*r, 1) && affine_ok(*old(self), 0),
        ensures
            final(self).wf(),
            r.dispcnt % 8 == 1 ==> mode_post(*old(self), *final(self), *r, line),
    {
        self.render_objs(r.dispcnt, r.mosaic, r.winout, line);
        let ghost o = *self;
        self.render_bg_text::<0>(r.dispcnt, r.bgcnt[0], r.hofs[0], r.vofs[0], r.mosaic, line);
        let ghost t0 = *self;
        self.render_bg_text::<1>(r.dispcnt, r.bgcnt[1], r.hofs[1], r.vofs[1], r.mosaic, line);
        let ghost t1 = *self;
        self.render_bg_affine::<2>(r.dispcnt, r.bgcnt[2], r.affine[0], r.mosaic);
        proof {
            assert(objs_of(*old(self), o, *r, line) && text_of(o, t0, *r, 0, line) && text_of(t0, t1, *r, 1, line)
                && affine_of(t1, *self, *r, 2));
        }
    }

    /// Mode 2: objects, affine backgrounds 2 and 3.
    pub fn render_mode2(&mut self, r: &LineRegs, line: u16)
        requires
            old(self).wf(),
            all_mosaic_ok(old(self).oam@, line, r.mosaic),
            affine_ok(*old(self), 0) && affine_ok(*old(self), 1),
        ensures
            final(self).wf(),
            r.dispcnt % 8 == 2 ==> mode_post(*old(self), *final(self), *r, line),
    {
        self.render_objs(r.dispcnt, r.mosaic, r.winout, line);
        let ghost o = *self;
        self.render_bg_affine::<2>(r.dispcnt, r.bgcnt[2], r.affine[0], r.mosaic);
        let ghost t2 = *self;
        self.render_bg_affine::<3>(r.dispcnt, r.bgcnt[3], r.affine[1], r.mosaic);
        proof {
            assert(objs_of(*old(self), o, *r, line) && affine_of(o, t2, *r, 2) && affine_of(t2, *self, *r, 3));
        }
    }

    /// Mode 3: a bitmap of 15-bit colours, then objects.
    pub fn render_mode3(&mut self, r: &LineRegs, line: u16)
        requires
            old(self).wf(),
            line < 160,
            all_mosaic_ok(old(self).oam@, line, r.mosaic),
        ensures
            final(self).wf(),
            r.dispcnt % 8 == 3 ==> mode_post(*old(self), *final(self), *r, line),
    {
        self.bitmap_mode3(r.dispcnt, line);
        let ghost m = *self;
        self.render_objs(r.dispcnt, r.mosaic, r.winout, line);
        proof {
            assert(bitmap3_post(*old(self), m, r.dispcnt, line) && objs_of(m, *self, *r, line));
        }
    }

    /// Mode 4: a bitmap of palette indices, then objects.
    pub fn render_mode4(&mut self, r: &LineRegs, line: u16)
        requires
            old(self).wf(),
            line < 160,
            all_mosaic_ok(old(self).oam@, line, r.mosaic),
        ensures
            final(self).wf(),
            r.dispcnt % 8 == 4 ==> mode_post(*old(self), *final(self), *r, line),
    {
        self.bitmap_mode4(r.dispcnt, line);
        let ghost m = *self;
        self.render_objs(r.dispcnt, r.mosaic, r.winout, line);
        proof {
            assert(bitmap4_post(*old(self), m, r.dispcnt, line) && objs_of(m, *self, *r, line));
        }
    }

    /// Mode 5: a small bitmap of 15-bit colours, then objects.
    pub fn render_mode5(&mut self, r: &LineRegs, line: u16)
        requires
            old(self).wf(),
            all_mosaic_ok(old(self).oam@, line, r.mosaic),
            line <= 127 && (r.dispcnt / 0x400) % 2 == 1 ==> (bitmap_start(r.dispcnt) + line * 160 + 159) * 2 + 1
                < 96 * KB,
        ensures
            final(self).wf(),
            r.dispcnt % 8 == 5 ==> mode_post(*old(self), *final(self), *r, line),
    {
        self.bitmap_mode5(r.dispcnt, line);
        let ghost m = *self;
        self.render_objs(r.dispcnt, r.mosaic, r.winout, line);
        proof {
            assert(bitmap5_post(*old(self), m, r.dispcnt, line) && objs_of(m, *self, *r, line));
        }
    }

    /// Draw line `line` (VCOUNT): nothing past the visible lines; all white
    /// on forced blank (DISPCNT bit 7); else the window masks, the layers of
    /// the mode, and the line composed from them.
    pub fn render_line(&mut self, r: &LineRegs, line: u16)
        requires
            old(self).wf(),
            line < 160 && !reg_bit(r.dispcnt, 7) ==> mode_ok(*old(self), *r, line),
        ensures
            final(self).wf(),
            line >= 160 ==> *final(self) == *old(self),
            line < 160 && reg_bit(r.dispcnt, 7) ==> {
                &&& forall|x: int| 0 <= x < 240 ==> (#[trigger] final(self).pixels@[line * 240 + x])@ == seq![31u8, 31, 31, 255]
                &&& forall|i: int|
                    0 <= i < 240 * 160 && !(line * 240 <= i < line * 240 + 240) ==> #[trigger] final(self).pixels@[i]
                        == old(self).pixels@[i]
                &&& final(self).pixels@.len() == old(self).pixels@.len()
                &&& final(self).palette == old(self).palette && final(self).vram == old(self).vram
                &&& final(self).oam == old(self).oam && final(self).win_masks == old(self).win_masks
                &&& final(self).bg_layers == old(self).bg_layers && final(self).obj_layers == old(self).obj_layers
                &&& final(self).bg_x == old(self).bg_x && final(self).bg_y == old(self).bg_y
                &&& final(self).last_frame == old(self).last_frame
            },
            line < 160 && !reg_bit(r.dispcnt, 7) ==> exists|w: Ppu, m: Ppu|
                #![trigger windows_post(*old(self), w, r.dispcnt, r.winin, r.winout, r.winh, r.winv, line as u8), mode_post(w, m, *r, line)]
                windows_post(*old(self), w, r.dispcnt, r.winin, r.winout, r.winh, r.winv, line as u8) && mode_post(
                    w,
                    m,
                    *r,
                    line,
                ) && finish_post(m, *final(self), line),
    {
        if line >= 160 {
            return;
        }
        if Self::bit(r.dispcnt, 7) {
            let start = line as usize * 240;
            let mut pixel: usize = 0;
            while pixel < 240
                invariant
                    self.wf(),
                    line < 160,
                    start == line * 240,
                    pixel <= 240,
                    self.pixels@.len() == old(self).pixels@.len(),
                    forall|x: int| 0 <= x < pixel ==> (#[trigger] self.pixels@[line * 240 + x])@ == seq![31u8, 31, 31, 255],
                    forall|i: int|
                        0 <= i < 240 * 160 && !(line * 240 <= i < line * 240 + pixel) ==> #[trigger] self.pixels@[i]
                            == old(self).pixels@[i],
                    self.palette == old(self).palette && self.vram == old(self).vram,
                    self.oam == old(self).oam && self.win_masks == old(self).win_masks,
                    self.bg_layers == old(self).bg_layers && self.obj_layers == old(self).obj_layers,
                    self.bg_x == old(self).bg_x && self.bg_y == old(self).bg_y,
                    self.last_frame == old(self).last_frame,
                decreases 240 - pixel,
            {
                let white: Colour = [31, 31, 31, 255];
                self.pixels.set(start + pixel, white);
                proof {
                    assert(white@ =~= seq![31u8, 31, 31, 255]);
                }
                pixel += 1;
            }
            return;
        }
        self.calc_windows(r.dispcnt, r.winin, r.winout, r.winh, r.winv, line as u8);
        let ghost w = *self;
        self.render_mode(r, line);
        let ghost m = *self;
        self.finish_line(line);
        proof {
            assert(windows_post(*old(self), w, r.dispcnt, r.winin, r.winout, r.winh, r.winv, line as u8) && mode_post(
                w,
                m,
                *r,
                line,
            ) && finish_post(m, *self, line));
        }
    }
}

} // verus!

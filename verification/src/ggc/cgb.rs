//! Colour palettes of the CGB's PPU.
use vstd::prelude::*;
use crate::common::Colour;

verus! {

/// Address of the background palette index register.
pub const BCPS: u16 = 0xFF68;
/// Address of the background palette data register.
pub const BCPD: u16 = 0xFF69;
/// Address of the object palette index register.
pub const OCPS: u16 = 0xFF6A;
/// Address of the object palette data register.
pub const OCPD: u16 = 0xFF6B;
/// Address of the object priority mode register.
pub const OPRI: u16 = 0xFF6C;

/// A CGB palette colour.
#[derive(Copy, Clone)]
pub struct CgbColour {
    pub colour: Colour,
    pub raw_high: u8,
    pub raw_low: u8,
}

/// 5-bit red of a raw colour.
pub open spec fn red5(high: u8, low: u8) -> int {
    (low % 32) as int
}

/// 5-bit green of a raw colour.
pub open spec fn green5(high: u8, low: u8) -> int {
    (high % 4) * 8 + low / 32
}

/// 5-bit blue of a raw colour.
pub open spec fn blue5(high: u8, low: u8) -> int {
    ((high / 4) % 32) as int
}

/// A 5-bit channel stretched to 8 bits.
pub open spec fn expand5(c: int) -> int {
    c * 8 + c / 4
}

/// A corrected channel: the weighted sum, clamped, to 8 bits.
pub open spec fn corrected(sum: int) -> int {
    (if sum < 960 { sum } else { 960 }) / 4
}

/// The displayed colour of a raw colour.
pub open spec fn display_colour(high: u8, low: u8, colour_correction: bool) -> Seq<u8> {
    let r = red5(high, low);
    let g = green5(high, low);
    let b = blue5(high, low);
    if colour_correction {
        // https://near.sh/articles/video/color-emulation
        seq![
            corrected(r * 26 + g * 4 + b * 2) as u8,
            corrected(g * 24 + b * 8) as u8,
            corrected(r * 6 + g * 4 + b * 22) as u8,
            255u8,
        ]
    } else {
        seq![expand5(r) as u8, expand5(g) as u8, expand5(b) as u8, 255u8]
    }
}

/// A raw colour is red in bits 0-4, green in bits 5-9 and blue in bits
/// 10-14 of the little-endian halfword `high`, `low`: the three 5-bit
/// channels put back together give its low 15 bits. Stretched to a byte,
/// a channel of 0 stays 0, 31 becomes 255, and a brighter channel gives a
/// brighter byte. Every displayed colour is opaque.
pub proof fn lemma_colour_channels(high: u8, low: u8, colour_correction: bool, c: int, d: int)
    requires
        0 <= c < d < 32,
    ensures
        red5(high, low) + green5(high, low) * 32 + blue5(high, low) * 1024 == (high % 128) * 256
            + low,
        0 <= red5(high, low) < 32 && 0 <= green5(high, low) < 32 && 0 <= blue5(high, low) < 32,
        expand5(0) == 0 && expand5(31) == 255,
        0 <= expand5(c) < expand5(d) <= 255,
        display_colour(high, low, colour_correction).len() == 4,
        display_colour(high, low, colour_correction)[3] == 255,
{
}

impl CgbColour {
    /// A black colour.
    pub fn new() -> (c: Self)
        ensures
            c.raw_high == 0 && c.raw_low == 0,
            c.colour@ == seq![0u8, 0, 0, 0],
    {
        CgbColour { colour: [0; 4], raw_high: 0, raw_low: 0 }
    }

    /// Update the displayed colour from the raw value.
    pub fn recalculate(&mut self, colour_correction: bool)
        ensures
            final(self).raw_high == old(self).raw_high,
            final(self).raw_low == old(self).raw_low,
            final(self).colour@ == display_colour(
                old(self).raw_high,
                old(self).raw_low,
                colour_correction,
            ),
    {
        let r = (self.raw_low % 32) as u16;
        let g = ((self.raw_high % 4) * 8 + self.raw_low / 32) as u16;
        let b = ((self.raw_high / 4) % 32) as u16;
        if colour_correction {
            let r1 = r * 26 + g * 4 + b * 2;
            let g1 = g * 24 + b * 8;
            let b1 = r * 6 + g * 4 + b * 22;
            self.colour = [
                ((if r1 < 960 { r1 } else { 960 }) / 4) as u8,
                ((if g1 < 960 { g1 } else { 960 }) / 4) as u8,
                ((if b1 < 960 { b1 } else { 960 }) / 4) as u8,
                255,
            ];
        } else {
            self.colour = [(r * 8 + r / 4) as u8, (g * 8 + g / 4) as u8, (b * 8 + b / 4) as u8, 255];
        }
        proof {
            assert(self.colour@ =~= display_colour(
                old(self).raw_high,
                old(self).raw_low,
                colour_correction,
            ));
        }
    }
}

/// Data required for a CGB PPU, mainly palette data.
pub struct Cgb {
    pub bg_palette_idx: u8,
    pub bg_palette_inc: bool,
    pub bg_palettes: [CgbColour; 32],
    pub obj_palette_idx: u8,
    pub obj_palette_inc: bool,
    pub obj_palettes: [CgbColour; 32],
    pub colour_correction: bool,
    pub dmg_used_x_obj_cords: Option<[Option<u8>; 10]>,
    pub unavailable_pixels: [bool; 160],
}

/// What a read of palette register `addr` gives.
pub open spec fn cgb_read(c: Cgb, addr: u16) -> u8 {
    if addr == BCPS {
        if c.bg_palette_inc {
            c.bg_palette_idx & 0x80
        } else {
            0u8
        }
    } else if addr == OCPS {
        if c.obj_palette_inc {
            c.obj_palette_idx & 0x80
        } else {
            0u8
        }
    } else if addr == BCPD {
        palette_byte(c.bg_palette_idx, c.bg_palettes@)
    } else if addr == OCPD {
        palette_byte(c.obj_palette_idx, c.obj_palettes@)
    } else {
        0xFFu8
    }
}

/// Palette state after writing `value` to palette register `addr`.
#[verifier::opaque]
pub open spec fn cgb_write(before: Cgb, after: Cgb, addr: u16, value: u8) -> bool {
    &&& addr == BCPS ==> after == (Cgb { bg_palette_idx: value % 64, bg_palette_inc: value >= 128, ..before })
    &&& addr == OCPS ==> after == (Cgb { obj_palette_idx: value % 64, obj_palette_inc: value >= 128, ..before })
    &&& addr == BCPD ==> {
        &&& palettes_after_write(
            before.bg_palettes@,
            before.bg_palette_idx,
            value,
            before.colour_correction,
            after.bg_palettes@,
        )
        &&& after == (Cgb {
            bg_palettes: after.bg_palettes,
            bg_palette_idx: (before.bg_palette_idx + if before.bg_palette_inc {
                1int
            } else {
                0int
            }) as u8,
            ..before
        })
    }
    &&& addr == OCPD ==> {
        &&& palettes_after_write(
            before.obj_palettes@,
            before.obj_palette_idx,
            value,
            before.colour_correction,
            after.obj_palettes@,
        )
        &&& after == (Cgb {
            obj_palettes: after.obj_palettes,
            obj_palette_idx: (before.obj_palette_idx + if before.obj_palette_inc {
                1int
            } else {
                0int
            }) as u8,
            ..before
        })
    }
    &&& addr == OPRI ==> {
        &&& after == (Cgb { dmg_used_x_obj_cords: after.dmg_used_x_obj_cords, ..before })
        &&& value % 2 == 1 ==> (after.dmg_used_x_obj_cords matches Some(used) && forall|i: int|
            0 <= i < 10 ==> used[i] is None)
        &&& value % 2 == 0 ==> after.dmg_used_x_obj_cords is None
    }
    &&& addr != BCPS && addr != OCPS && addr != BCPD && addr != OCPD && addr != OPRI ==> after == before
}

/// Byte of palette memory that a palette index addresses.
pub open spec fn palette_byte(index: u8, palettes: Seq<CgbColour>) -> u8 {
    let pal = palettes[((index / 2) % 32) as int];
    if index % 2 == 1 {
        pal.raw_high
    } else {
        pal.raw_low
    }
}

/// Palette memory after writing `value` at `index`: the byte changes and
/// the colour is recalculated.
pub open spec fn palettes_after_write(
    palettes: Seq<CgbColour>,
    index: u8,
    value: u8,
    colour_correction: bool,
    after: Seq<CgbColour>,
) -> bool {
    let slot = (index / 2) % 32;
    let old_pal = palettes[slot as int];
    let high = if index % 2 == 1 { value } else { old_pal.raw_high };
    let low = if index % 2 == 1 { old_pal.raw_low } else { value };
    &&& after.len() == palettes.len()
    &&& forall|i: int| 0 <= i < palettes.len() && i != slot ==> after[i] == palettes[i]
    &&& after[slot as int].raw_high == high
    &&& after[slot as int].raw_low == low
    &&& after[slot as int].colour@ == display_colour(high, low, colour_correction)
}

impl Cgb {
    /// Palettes all black, indices at 0.
    pub fn new(colour_correction: bool) -> (c: Self)
        ensures
            c.colour_correction == colour_correction,
            c.bg_palette_idx == 0 && !c.bg_palette_inc,
            c.obj_palette_idx == 0 && !c.obj_palette_inc,
            c.dmg_used_x_obj_cords.is_none(),
            forall|i: int| 0 <= i < 32 ==> c.bg_palettes[i].raw_low == 0 && c.bg_palettes[i].raw_high == 0,
            forall|i: int| 0 <= i < 32 ==> c.obj_palettes[i].raw_low == 0 && c.obj_palettes[i].raw_high == 0,
            forall|i: int| 0 <= i < 160 ==> !c.unavailable_pixels[i],
    {
        Self {
            bg_palette_idx: 0,
            bg_palette_inc: false,
            bg_palettes: [CgbColour { colour: [0; 4], raw_high: 0, raw_low: 0 }; 32],
            obj_palette_idx: 0,
            obj_palette_inc: false,
            obj_palettes: [CgbColour { colour: [0; 4], raw_high: 0, raw_low: 0 }; 32],
            colour_correction,
            dmg_used_x_obj_cords: None,
            unavailable_pixels: [false; 160],
        }
    }

    /// Read a palette register.
    pub fn read_high(&self, addr: u16) -> (r: u8)
        ensures
            r == cgb_read(*self, addr),
    {
        if addr == BCPS {
            Self::read_cps(self.bg_palette_idx, self.bg_palette_inc)
        } else if addr == OCPS {
            Self::read_cps(self.obj_palette_idx, self.obj_palette_inc)
        } else if addr == BCPD {
            Self::read_cpd(self.bg_palette_idx, &self.bg_palettes)
        } else if addr == OCPD {
            Self::read_cpd(self.obj_palette_idx, &self.obj_palettes)
        } else {
            0xFF
        }
    }

    fn read_cps(index: u8, inc: bool) -> (r: u8)
        ensures
            r == if inc { index & 0x80 } else { 0u8 },
    {
        let flag: u8 = if inc {
            0x80
        } else {
            0
        };
        proof {
            assert(index & 0 == 0) by (bit_vector);
        }
        index & flag
    }

    fn read_cpd(index: u8, palettes: &[CgbColour; 32]) -> (r: u8)
        ensures
            r == palette_byte(index, palettes@),
    {
        let pal = palettes[((index / 2) % 32) as usize];
        if index % 2 == 1 {
            pal.raw_high
        } else {
            pal.raw_low
        }
    }

    /// Write a palette register.
    pub fn write_high(&mut self, addr: u16, value: u8)
        requires
            addr == BCPD && old(self).bg_palette_inc ==> old(self).bg_palette_idx < 255,
            addr == OCPD && old(self).obj_palette_inc ==> old(self).obj_palette_idx < 255,
        ensures
            cgb_write(*old(self), *final(self), addr, value),
    {
        proof {
            reveal(cgb_write);
        }
        if addr == BCPS {
            self.bg_palette_idx = value % 64;
            self.bg_palette_inc = value >= 128;
        } else if addr == OCPS {
            self.obj_palette_idx = value % 64;
            self.obj_palette_inc = value >= 128;
        } else if addr == BCPD {
            let (idx, pals) = Self::write_cpd(
                self.bg_palette_idx,
                self.bg_palette_inc,
                self.bg_palettes,
                self.colour_correction,
                value,
            );
            self.bg_palette_idx = idx;
            self.bg_palettes = pals;
        } else if addr == OCPD {
            let (idx, pals) = Self::write_cpd(
                self.obj_palette_idx,
                self.obj_palette_inc,
                self.obj_palettes,
                self.colour_correction,
                value,
            );
            self.obj_palette_idx = idx;
            self.obj_palettes = pals;
        } else if addr == OPRI {
            if value % 2 == 1 {
                self.dmg_used_x_obj_cords = Some([None; 10]);
            } else {
                self.dmg_used_x_obj_cords = None;
            }
        }
    }

    /// Write palette memory at `index`; returns the new index and palettes.
    fn write_cpd(
        index: u8,
        inc: bool,
        palettes: [CgbColour; 32],
        colour_correction: bool,
        value: u8,
    ) -> (r: (u8, [CgbColour; 32]))
        requires
            inc ==> index < 255,
        ensures
            palettes_after_write(palettes@, index, value, colour_correction, r.1@),
            r.0 == index + if inc { 1int } else { 0int },
    {
        let mut palettes = palettes;
        let slot = ((index / 2) % 32) as usize;
        let mut palette = palettes[slot];
        if index % 2 == 1 {
            palette.raw_high = value;
        } else {
            palette.raw_low = value;
        }
        palette.recalculate(colour_correction);
        palettes[slot] = palette;
        let index = if inc {
            index + 1
        } else {
            index
        };
        (index, palettes)
    }
}

/// Writing palette memory at an index and reading the same index gives
/// back the byte written.
pub proof fn lemma_palette_roundtrip(
    palettes: Seq<CgbColour>,
    index: u8,
    value: u8,
    colour_correction: bool,
    after: Seq<CgbColour>,
)
    requires
        palettes.len() == 32,
        palettes_after_write(palettes, index, value, colour_correction, after),
    ensures
        palette_byte(index, after) == value,
{
}

/// The index register of the background (`obj` false) or object palettes.
pub open spec fn cps_reg(obj: bool) -> u16 {
    if obj {
        OCPS
    } else {
        BCPS
    }
}

/// The data register of the background (`obj` false) or object palettes.
pub open spec fn cpd_reg(obj: bool) -> u16 {
    if obj {
        OCPD
    } else {
        BCPD
    }
}

/// Palette memory addressed by the background (`obj` false) or object
/// palette registers.
pub open spec fn palettes_of(c: Cgb, obj: bool) -> Seq<CgbColour> {
    if obj {
        c.obj_palettes@
    } else {
        c.bg_palettes@
    }
}

/// Auto-increment: selecting index `i` with bit 7 set in BCPS (OCPS) and
/// then writing BCPD (OCPD) twice stores the bytes at `i` and `i + 1`, the
/// index ends at `i + 2` and the other palettes are untouched; selecting
/// `i` or `i + 1` again reads them back.
pub proof fn lemma_palette_auto_increment(
    c0: Cgb,
    c1: Cgb,
    c2: Cgb,
    c3: Cgb,
    obj: bool,
    i: u8,
    v0: u8,
    v1: u8,
)
    requires
        i < 0x3F,
        c0.bg_palettes@.len() == 32 && c0.obj_palettes@.len() == 32,
        cgb_write(c0, c1, cps_reg(obj), (0x80 + i) as u8),
        cgb_write(c1, c2, cpd_reg(obj), v0),
        cgb_write(c2, c3, cpd_reg(obj), v1),
    ensures
        palette_byte(i, palettes_of(c3, obj)) == v0,
        palette_byte((i + 1) as u8, palettes_of(c3, obj)) == v1,
        index_of(c3, obj) == i + 2,
        palettes_of(c3, !obj) == palettes_of(c0, !obj),
        forall|c4: Cgb|
            #[trigger] cgb_write(c3, c4, cps_reg(obj), i) ==> cgb_read(c4, cpd_reg(obj)) == v0,
        forall|c4: Cgb|
            #[trigger] cgb_write(c3, c4, cps_reg(obj), (i + 1) as u8) ==> cgb_read(c4, cpd_reg(obj)) == v1,
{
    let p3 = palettes_of(c3, obj);
    assert(palette_byte(i, p3) == v0 && palette_byte((i + 1) as u8, p3) == v1 && index_of(c3, obj) == i + 2
        && palettes_of(c3, !obj) == palettes_of(c0, !obj)) by {
        let sel = (0x80 + i) as u8;
        assert(sel % 64 == i && sel >= 128);
        lemma_select(c0, c1, obj, sel);
        lemma_data(c1, c2, obj, v0);
        lemma_data(c2, c3, obj, v1);
    }
    assert forall|c4: Cgb| #[trigger] cgb_write(c3, c4, cps_reg(obj), i) implies cgb_read(c4, cpd_reg(obj)) == v0 by {
        lemma_reseek_read(c3, c4, obj, i);
    }
    assert forall|c4: Cgb| #[trigger] cgb_write(c3, c4, cps_reg(obj), (i + 1) as u8) implies cgb_read(c4, cpd_reg(obj))
        == v1 by {
        lemma_reseek_read(c3, c4, obj, (i + 1) as u8);
    }
}

/// Selecting index `j` (below 64) and reading the data register gives
/// palette memory at `j`.
proof fn lemma_reseek_read(c: Cgb, c1: Cgb, obj: bool, j: u8)
    requires
        j < 64,
        cgb_write(c, c1, cps_reg(obj), j),
    ensures
        cgb_read(c1, cpd_reg(obj)) == palette_byte(j, palettes_of(c, obj)),
{
    lemma_select(c, c1, obj, j);
    lemma_read(c1, obj);
}

/// The index register of the background (`obj` false) or object palettes.
pub open spec fn index_of(c: Cgb, obj: bool) -> u8 {
    if obj {
        c.obj_palette_idx
    } else {
        c.bg_palette_idx
    }
}

/// If the background (`obj` false) or object palette index increments.
pub open spec fn inc_of(c: Cgb, obj: bool) -> bool {
    if obj {
        c.obj_palette_inc
    } else {
        c.bg_palette_inc
    }
}

/// A write to an index register selects the index and leaves the palettes.
proof fn lemma_select(c: Cgb, c1: Cgb, obj: bool, v: u8)
    requires
        cgb_write(c, c1, cps_reg(obj), v),
    ensures
        index_of(c1, obj) == v % 64,
        inc_of(c1, obj) == (v >= 128),
        palettes_of(c1, obj) == palettes_of(c, obj),
        palettes_of(c1, !obj) == palettes_of(c, !obj),
        c1.colour_correction == c.colour_correction,
{
    reveal(cgb_write);
}

/// A write to a data register writes palette memory at the index and
/// moves it on.
proof fn lemma_data(c: Cgb, c1: Cgb, obj: bool, v: u8)
    requires
        cgb_write(c, c1, cpd_reg(obj), v),
    ensures
        palettes_after_write(palettes_of(c, obj), index_of(c, obj), v, c.colour_correction, palettes_of(c1, obj)),
        index_of(c1, obj) == (index_of(c, obj) + if inc_of(c, obj) {
            1int
        } else {
            0int
        }) as u8,
        inc_of(c1, obj) == inc_of(c, obj),
        palettes_of(c1, !obj) == palettes_of(c, !obj),
        c1.colour_correction == c.colour_correction,
{
    reveal(cgb_write);
}

/// A data register reads palette memory at the index.
proof fn lemma_read(c: Cgb, obj: bool)
    ensures
        cgb_read(c, cpd_reg(obj)) == palette_byte(index_of(c, obj), palettes_of(c, obj)),
{
}

/// The kind of the GG's PPU: only the CGB's has the colour palettes and
/// their registers.
pub enum PpuKind {
    Dmg,
    Cgb(Cgb),
}

impl PpuKind {
    /// Read a palette register: 0xFF without CGB palettes.
    pub fn read_high(&self, addr: u16) -> (r: u8)
        ensures
            r == match *self {
                PpuKind::Cgb(c) => cgb_read(c, addr),
                PpuKind::Dmg => 0xFFu8,
            },
    {
        match self {
            PpuKind::Cgb(cgb) => cgb.read_high(addr),
            PpuKind::Dmg => 0xFF,
        }
    }

    /// Write a palette register: ignored without CGB palettes.
    pub fn write_high(&mut self, addr: u16, value: u8)
        requires
            *old(self) matches PpuKind::Cgb(c) ==> {
                &&& addr == BCPD && c.bg_palette_inc ==> c.bg_palette_idx < 255
                &&& addr == OCPD && c.obj_palette_inc ==> c.obj_palette_idx < 255
            },
        ensures
            match *old(self) {
                PpuKind::Cgb(c) => *final(self) matches PpuKind::Cgb(c2) && cgb_write(c, c2, addr, value),
                PpuKind::Dmg => *final(self) is Dmg,
            },
    {
        match self {
            PpuKind::Cgb(cgb) => cgb.write_high(addr, value),
            PpuKind::Dmg => {},
        }
    }
}

} // verus!

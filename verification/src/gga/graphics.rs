//! The GGA's PPU: palette and VRAM colour lookup, the per-line layer
//! buffers with their windows, composing a line from its layers, and the
//! timing of a scanline.
use vstd::prelude::*;
use crate::common::Colour;
use crate::gga::cartridge::KB;

verus! {

/// DISPSTAT bit: in VBlank.
pub const VBLANK: u16 = 0;
/// DISPSTAT bit: in HBlank.
pub const HBLANK: u16 = 1;
/// DISPSTAT bit: VCOUNT matches the LYC setting.
pub const LYC_MATCH: u16 = 2;
/// DISPSTAT bit: VBlank interrupt enable.
pub const VBLANK_IRQ: u16 = 3;
/// DISPSTAT bit: HBlank interrupt enable.
pub const HBLANK_IRQ: u16 = 4;
/// DISPSTAT bit: LYC interrupt enable.
pub const LYC_IRQ: u16 = 5;

/// A layer pixel that nothing was drawn to.
pub open spec fn is_empty(c: Colour) -> bool {
    c@ == seq![0u8, 0, 0, 0]
}

/// The colour of a 15-bit BGR value.
pub open spec fn colour_of(h: u16) -> Seq<u8> {
    seq![(h % 32) as u8, ((h / 32) % 32) as u8, ((h / 1024) % 32) as u8, 255u8]
}

/// A 15-bit BGR value holds red in bits 0-4, green in bits 5-9 and blue
/// in bits 10-14: the three channels of its colour put back together give
/// its low 15 bits, and the colour is opaque.
pub proof fn lemma_colour_of_channels(h: u16)
    ensures
        colour_of(h)[0] + colour_of(h)[1] * 32 + colour_of(h)[2] * 1024 == h % 0x8000,
        colour_of(h)[0] < 32 && colour_of(h)[1] < 32 && colour_of(h)[2] < 32,
        colour_of(h)[3] == 255,
{
}

/// The little-endian halfword at `addr`.
pub open spec fn hword_at(mem: Seq<u8>, addr: int) -> u16 {
    (mem[addr] + mem[addr + 1] * 256) as u16
}

/// A 5-bit channel stretched to 8 bits, in 8-bit arithmetic.
pub open spec fn adjusted(c: u8) -> u8 {
    (c << 3u8) | (c >> 2u8)
}

/// Start and end (exclusive) of a window along one axis, from its
/// register: the start in the high byte, the end in the low byte.
pub open spec fn window_range(value: u16, max: u8) -> (u8, u8) {
    let x1 = (value / 256) as u8;
    let end = (value % 256) + 1;
    let x2 = (if end < max { end } else { max as int }) as u8;
    if x1 > x2 {
        (x1, max)
    } else {
        (x1, x2)
    }
}

/// Events of a scanline.
#[derive(Copy, Clone, PartialEq, Eq, Structural, Debug)]
pub enum PpuEvent {
    /// The visible part of the line ends: render it, enter HBlank.
    HblankStart,
    /// The HBlank flag goes up.
    SetHblank,
    /// The line ends.
    HblankEnd,
}

/// Interrupts the PPU raises.
#[derive(Copy, Clone, PartialEq, Eq, Structural, Debug)]
pub enum PpuInterrupt {
    VBlank,
    HBlank,
    VCounter,
}

/// Work the system does for a PPU event, and the registers after it.
#[derive(Copy, Clone, PartialEq, Eq, Structural, Debug)]
pub struct PpuStep {
    /// New VCOUNT.
    pub vcount: u16,
    /// New DISPSTAT.
    pub dispstat: u16,
    /// The current line is to be rendered.
    pub render_line: bool,
    /// Interrupt to request.
    pub irq: Option<PpuInterrupt>,
    /// HBlank DMAs are to be started.
    pub hblank_dma: bool,
    /// VBlank DMAs are to be started, affine backgrounds reloaded, and the
    /// frame is complete.
    pub vblank: bool,
    /// The frame has been shown to its end: the frontend is to be told.
    pub frame_finished: bool,
    /// Next event of the line.
    pub next: PpuEvent,
    /// Cycles until the next event.
    pub cycles: i32,
}

/// A DISPSTAT bit.
pub open spec fn stat_bit(dispstat: u16, b: u16) -> bool {
    (dispstat >> b) & 1 == 1
}

/// DISPSTAT with a bit set or cleared.
pub open spec fn with_stat_bit(dispstat: u16, b: u16, on: bool) -> u16 {
    if on {
        dispstat | (1u16 << b)
    } else {
        dispstat & !(1u16 << b)
    }
}

/// What a PPU event does, given VCOUNT and DISPSTAT.
pub open spec fn ppu_step(event: PpuEvent, vcount: u16, dispstat: u16) -> PpuStep {
    match event {
        PpuEvent::HblankStart => PpuStep {
            vcount,
            dispstat,
            render_line: true,
            irq: if stat_bit(dispstat, HBLANK_IRQ) { Some(PpuInterrupt::HBlank) } else { None },
            hblank_dma: true,
            vblank: false,
            frame_finished: false,
            next: PpuEvent::SetHblank,
            cycles: 46,
        },
        PpuEvent::SetHblank => PpuStep {
            vcount,
            dispstat: with_stat_bit(dispstat, HBLANK, true),
            render_line: false,
            irq: None,
            hblank_dma: false,
            vblank: false,
            frame_finished: false,
            next: PpuEvent::HblankEnd,
            cycles: 226,
        },
        PpuEvent::HblankEnd => {
            let line = (vcount + 1) as u16;
            let lyc = line == dispstat / 256;
            let s1 = with_stat_bit(dispstat, LYC_MATCH, lyc);
            let s2 = if line == 160 {
                with_stat_bit(s1, VBLANK, true)
            } else if line == 227 {
                with_stat_bit(s1, VBLANK, false)
            } else {
                s1
            };
            let irq = if lyc && stat_bit(dispstat, LYC_IRQ) {
                Some(PpuInterrupt::VCounter)
            } else if line == 160 && stat_bit(s1, VBLANK_IRQ) {
                Some(PpuInterrupt::VBlank)
            } else {
                None
            };
            PpuStep {
                vcount: if line == 228 { 0 } else { line },
                dispstat: with_stat_bit(s2, HBLANK, false),
                render_line: false,
                irq,
                hblank_dma: false,
                vblank: line == 160,
                frame_finished: line == 228,
                next: PpuEvent::HblankStart,
                cycles: 960,
            }
        },
    }
}

/// The GGA's PPU.
pub struct Ppu {
    pub palette: Vec<u8>,
    pub vram: Vec<u8>,
    pub oam: Vec<u8>,
    /// The frame being drawn, line by line.
    pub pixels: Vec<Colour>,
    /// Background pixels of the current line, by priority.
    pub bg_layers: Vec<Vec<Colour>>,
    /// Object pixels of the current line, by priority.
    pub obj_layers: Vec<Vec<Colour>>,
    /// Per layer (BG0-3, OBJ) and pixel of the line, if it may be drawn.
    pub win_masks: Vec<Vec<bool>>,
    pub bg_x: [i32; 2],
    pub bg_y: [i32; 2],
    /// The last finished frame.
    pub last_frame: Option<Vec<Colour>>,
}

/// The 28-bit two's complement value of an affine reference point held in
/// a low and a high register (bits 12 to 15 of the high one unused).
pub open spec fn affine_offs(lo: u16, hi: u16) -> int {
    lo + (hi % 0x800) * 0x1_0000 - if (hi / 0x800) % 2 == 1 {
        0x800_0000int
    } else {
        0int
    }
}

/// A list of `n` rows of 240 entries.
pub open spec fn rows<T>(v: Seq<Vec<T>>, n: int) -> bool {
    &&& v.len() == n
    &&& forall|i: int| 0 <= i < n ==> (#[trigger] v[i])@.len() == 240
}

impl Ppu {
    /// Memories and buffers have their sizes.
    pub open spec fn wf(&self) -> bool {
        &&& self.palette@.len() == KB
        &&& self.vram@.len() == 96 * KB
        &&& self.oam@.len() == KB
        &&& self.pixels@.len() == 240 * 160
        &&& rows(self.bg_layers@, 4)
        &&& rows(self.obj_layers@, 4)
        &&& rows(self.win_masks@, 5)
    }

    /// If the memories and buffers have their sizes (`wf`).
    pub fn sizes_ok(&self) -> (b: bool)
        ensures
            b == self.wf(),
    {
        self.palette.len() == KB && self.vram.len() == 96 * KB && self.oam.len() == KB && self.pixels.len() == 240
            * 160 && Self::rows_ok(&self.bg_layers, 4) && Self::rows_ok(&self.obj_layers, 4) && Self::rows_ok(
            &self.win_masks,
            5,
        )
    }

    /// If `v` holds `n` rows of 240 entries.
    fn rows_ok<T>(v: &Vec<Vec<T>>, n: usize) -> (b: bool)
        ensures
            b == rows(v@, n as int),
    {
        if v.len() != n {
            return false;
        }
        let mut i: usize = 0;
        while i < n
            invariant
                v@.len() == n,
                i <= n,
                forall|j: int| 0 <= j < i ==> (#[trigger] v@[j])@.len() == 240,
            decreases n - i,
        {
            if v[i].len() != 240 {
                return false;
            }
            i += 1;
        }
        true
    }

    /// The colour of a 15-bit BGR value.
    pub fn hword_to_colour(hword: u16) -> (c: Colour)
        ensures
            c@ == colour_of(hword),
    {
        let r = (hword % 32) as u8;
        let g = ((hword / 32) % 32) as u8;
        let b = ((hword / 1024) % 32) as u8;
        let c = [r, g, b, 255];
        proof {
            assert(c@ =~= colour_of(hword));
        }
        c
    }

    /// The colour stored at `addr` in VRAM (bitmap modes).
    pub fn hword_to_colour_vram(&self, addr: usize) -> (c: Colour)
        requires
            addr + 1 < self.vram.len(),
        ensures
            c@ == colour_of(hword_at(self.vram@, addr as int)),
    {
        let lo = self.vram[addr] as u16;
        let hi = self.vram[addr + 1] as u16;
        Self::hword_to_colour(lo + hi * 256)
    }

    /// The colour of palette entry `idx`, from the object palette if `OBJ`.
    pub fn idx_to_palette<const OBJ: bool>(&self, idx: u8) -> (c: Colour)
        requires
            self.wf(),
        ensures
            c@ == colour_of(hword_at(self.palette@, idx * 2 + if OBJ { 0x200int } else { 0int })),
    {
        let addr = (idx as usize) * 2 + if OBJ {
            0x200
        } else {
            0
        };
        let lo = self.palette[addr] as u16;
        let hi = self.palette[addr + 1] as u16;
        Self::hword_to_colour(lo + hi * 256)
    }

    /// A byte of VRAM; the last 32KB are mirrored above its end.
    pub fn vram(&self, addr: usize) -> (r: u8)
        requires
            self.wf(),
            addr < 0x3_0000,
        ensures
            r == if addr <= 0x17FFF { self.vram@[addr as int] } else { self.vram@[addr - 0x18000] },
    {
        if addr <= 0x17FFF {
            self.vram[addr]
        } else {
            self.vram[addr - 0x18000]
        }
    }

    /// Window start and end (exclusive) along an axis of size `MAX`, from
    /// its register.
    pub fn window_coords<const MAX: u8>(value: u16) -> (r: (u8, u8))
        ensures
            r == window_range(value, MAX),
    {
        let x1 = (value / 256) as u8;
        let low = (value % 256) as u8;
        let end = low.saturating_add(1);
        let x2 = if end < MAX {
            end
        } else {
            MAX
        };
        if x1 > x2 {
            (x1, MAX)
        } else {
            (x1, x2)
        }
    }

    /// The 28-bit signed reference point of an affine background, from its
    /// two registers.
    pub fn get_affine_offs(lo: u16, hi: u16) -> (r: i32)
        ensures
            r == affine_offs(lo, hi),
    {
        let w = lo as u32 + ((hi % 0x800) as u32) * 0x1_0000;
        if (hi / 0x800) % 2 == 1 {
            w as i32 - 0x800_0000
        } else {
            w as i32
        }
    }

    /// Offset in a text background's map of the tile at tile coordinates
    /// `x`, `y`, for the background's size setting.
    pub fn get_map_offset(x: u32, y: u32, size: u16) -> (r: u32)
        ensures
            r == (y % 32) * 64 + (x % 32) * 2 + if size == 0 {
                0int
            } else if size == 1 {
                if x % 64 > 31 { 0x800int } else { 0int }
            } else if size == 2 {
                if y % 64 > 31 { 0x800int } else { 0int }
            } else {
                (if y % 64 > 31 { 0x1000int } else { 0int }) + (if x % 64 > 31 { 0x800int } else { 0int })
            },
    {
        let base = (y % 32) * 64 + (x % 32) * 2;
        let xh: u32 = if x % 64 > 31 {
            0x800
        } else {
            0
        };
        let yh: u32 = if y % 64 > 31 {
            0x800
        } else {
            0
        };
        if size == 0 {
            base
        } else if size == 1 {
            base + xh
        } else if size == 2 {
            base + yh
        } else {
            base + yh * 2 + xh
        }
    }

    /// Stretch the colour channels of a pixel from 5 to 8 bits.
    pub fn adjust_pixel(pixel: &mut Colour)
        ensures
            final(pixel)@ == seq![
                adjusted(old(pixel)[0]),
                adjusted(old(pixel)[1]),
                adjusted(old(pixel)[2]),
                old(pixel)[3],
            ],
    {
        let p = *pixel;
        *pixel = [(p[0] << 3) | (p[0] >> 2), (p[1] << 3) | (p[1] >> 2), (p[2] << 3) | (p[2] >> 2), p[3]];
        proof {
            assert(final(pixel)@ =~= seq![
                adjusted(old(pixel)[0]),
                adjusted(old(pixel)[1]),
                adjusted(old(pixel)[2]),
                old(pixel)[3],
            ]);
        }
    }

    /// Handle a PPU event: what is to be done, and the registers after it.
    pub fn handle_event(event: PpuEvent, vcount: u16, dispstat: u16) -> (s: PpuStep)
        requires
            vcount < 228,
        ensures
            s == ppu_step(event, vcount, dispstat),
    {
        match event {
            PpuEvent::HblankStart => PpuStep {
                vcount,
                dispstat,
                render_line: true,
                irq: if (dispstat >> HBLANK_IRQ) & 1 == 1 {
                    Some(PpuInterrupt::HBlank)
                } else {
                    None
                },
                hblank_dma: true,
                vblank: false,
                frame_finished: false,
                next: PpuEvent::SetHblank,
                cycles: 46,
            },
            PpuEvent::SetHblank => PpuStep {
                vcount,
                dispstat: dispstat | (1u16 << HBLANK),
                render_line: false,
                irq: None,
                hblank_dma: false,
                vblank: false,
                frame_finished: false,
                next: PpuEvent::HblankEnd,
                cycles: 226,
            },
            PpuEvent::HblankEnd => {
                let line = vcount + 1;
                let lyc = line == dispstat / 256;
                let s1 = if lyc {
                    dispstat | (1u16 << LYC_MATCH)
                } else {
                    dispstat & !(1u16 << LYC_MATCH)
                };
                let irq = if lyc && (dispstat >> LYC_IRQ) & 1 == 1 {
                    Some(PpuInterrupt::VCounter)
                } else if line == 160 && (s1 >> VBLANK_IRQ) & 1 == 1 {
                    Some(PpuInterrupt::VBlank)
                } else {
                    None
                };
                let s2 = if line == 160 {
                    s1 | (1u16 << VBLANK)
                } else if line == 227 {
                    s1 & !(1u16 << VBLANK)
                } else {
                    s1
                };
                PpuStep {
                    vcount: if line == 228 {
                        0
                    } else {
                        line
                    },
                    dispstat: s2 & !(1u16 << HBLANK),
                    render_line: false,
                    irq,
                    hblank_dma: false,
                    vblank: line == 160,
                    frame_finished: line == 228,
                    next: PpuEvent::HblankStart,
                    cycles: 960,
                }
            },
        }
    }
}

/// A vector of `n` copies of a value.
fn filled<T: Copy>(value: T, n: usize) -> (v: Vec<T>)
    ensures
        v@.len() == n,
        forall|i: int| 0 <= i < n ==> #[trigger] v@[i] == value,
{
    let mut v: Vec<T> = Vec::new();
    while v.len() < n
        invariant
            v@.len() <= n,
            forall|i: int| 0 <= i < v@.len() ==> #[trigger] v@[i] == value,
        decreases n - v@.len(),
    {
        v.push(value);
    }
    v
}

/// `n` rows of 240 copies of a value.
fn filled_rows<T: Copy>(value: T, n: usize) -> (v: Vec<Vec<T>>)
    ensures
        rows(v@, n as int),
        forall|i: int, j: int| 0 <= i < n && 0 <= j < 240 ==> #[trigger] v@[i]@[j] == value,
{
    let mut v: Vec<Vec<T>> = Vec::new();
    while v.len() < n
        invariant
            v@.len() <= n,
            forall|i: int| 0 <= i < v@.len() ==> (#[trigger] v@[i])@.len() == 240,
            forall|i: int, j: int| 0 <= i < v@.len() && 0 <= j < 240 ==> #[trigger] v@[i]@[j] == value,
        decreases n - v@.len(),
    {
        v.push(filled(value, 240));
    }
    v
}

/// Bit `b` of a register.
pub open spec fn reg_bit(value: u16, b: int) -> bool {
    (value as int / pow2(b)) % 2 == 1
}

/// 2 to the power of `b`, for the 16 bits of a register.
pub open spec fn pow2(b: int) -> int {
    if b <= 0 {
        1
    } else if b == 1 {
        2
    } else if b == 2 {
        4
    } else if b == 3 {
        8
    } else if b == 4 {
        16
    } else if b == 5 {
        32
    } else if b == 6 {
        64
    } else if b == 7 {
        128
    } else if b == 8 {
        256
    } else if b == 9 {
        512
    } else if b == 10 {
        1024
    } else if b == 11 {
        2048
    } else if b == 12 {
        4096
    } else if b == 13 {
        8192
    } else if b == 14 {
        16384
    } else {
        32768
    }
}

/// If `pixel` of `line` lies in window `w` (0 or 1).
pub open spec fn in_window(w: int, cnt: u16, winh: u16, winv: u16, line: u8, pixel: int) -> bool {
    let (x1, x2) = window_range(winh, 240);
    let (y1, y2) = window_range(winv, 160);
    &&& reg_bit(cnt, 13 + w)
    &&& y1 <= line < y2
    &&& x1 <= pixel < x2
}

/// If layer `m` (BG0-3, OBJ) may draw `pixel` of `line`.
pub open spec fn window_mask(
    cnt: u16,
    win: u16,
    wout: u16,
    winh: [u16; 2],
    winv: [u16; 2],
    line: u8,
    m: int,
    pixel: int,
) -> bool {
    if !reg_bit(cnt, 13) && !reg_bit(cnt, 14) && !reg_bit(cnt, 15) {
        true
    } else if in_window(0, cnt, winh[0], winv[0], line, pixel) {
        reg_bit(win, m)
    } else if in_window(1, cnt, winh[1], winv[1], line, pixel) {
        reg_bit(win, 8 + m)
    } else {
        reg_bit(wout, m)
    }
}

/// The topmost pixel of the layers at `x`, starting at priority `prio`:
/// an object before a background of the same priority.
pub open spec fn top_pixel(obj: Seq<Vec<Colour>>, bg: Seq<Vec<Colour>>, x: int, prio: int) -> Option<Colour>
    decreases 4 - prio,
{
    if prio >= 4 {
        None
    } else if !is_empty(obj[prio]@[x]) {
        Some(obj[prio]@[x])
    } else if !is_empty(bg[prio]@[x]) {
        Some(bg[prio]@[x])
    } else {
        top_pixel(obj, bg, x, prio + 1)
    }
}

/// The colours of a set of layers, by priority and pixel.
pub open spec fn layer_colours(l: Seq<Vec<Colour>>) -> Seq<Seq<Seq<u8>>> {
    Seq::new(l.len(), |p: int| Seq::new(l[p]@.len(), |x: int| l[p]@[x]@))
}

/// Layers after drawing colour `colour_idx` of `palette` at `x` into the
/// layer of priority `prio`, as `Ppu::set_pixel` does: index 0 and pixels
/// off the line are not drawn; with mosaic, a pixel off the mosaic grid
/// repeats the pixel on it.
pub open spec fn put_pixel(
    lv: Seq<Seq<Seq<u8>>>,
    pal: Seq<u8>,
    obj: bool,
    x: int,
    prio: int,
    palette: u8,
    colour_idx: u8,
    mosaic: bool,
    mosaic_reg: u16,
) -> Seq<Seq<Seq<u8>>> {
    let stretch: int = if obj { ((mosaic_reg / 256) % 16) as int } else { (mosaic_reg % 16) as int };
    if !(0 <= x < 240) || colour_idx == 0 {
        lv
    } else if mosaic && stretch != 0 && x % stretch != 0 {
        lv.update(prio, lv[prio].update(x, lv[prio][x - x % stretch]))
    } else {
        lv.update(
            prio,
            lv[prio].update(
                x,
                colour_of(hword_at(pal, ((palette << 4u8) + colour_idx) * 2 + if obj { 0x200int } else { 0int })),
            ),
        )
    }
}

/// Layers after drawing each of `writes` (position and colour index) in
/// turn.
pub open spec fn draw_all(
    lv: Seq<Seq<Seq<u8>>>,
    pal: Seq<u8>,
    obj: bool,
    writes: Seq<(int, u8)>,
    prio: int,
    palette: u8,
    mosaic: bool,
    mosaic_reg: u16,
) -> Seq<Seq<Seq<u8>>>
    decreases writes.len(),
{
    if writes.len() == 0 {
        lv
    } else {
        put_pixel(
            draw_all(lv, pal, obj, writes.drop_last(), prio, palette, mosaic, mosaic_reg),
            pal,
            obj,
            writes.last().0,
            prio,
            palette,
            writes.last().1,
            mosaic,
            mosaic_reg,
        )
    }
}

/// Drawing two lists of pixels is drawing one after the other.
pub proof fn lemma_draw_all_append(
    lv: Seq<Seq<Seq<u8>>>,
    pal: Seq<u8>,
    obj: bool,
    a: Seq<(int, u8)>,
    b: Seq<(int, u8)>,
    prio: int,
    palette: u8,
    mosaic: bool,
    mosaic_reg: u16,
)
    ensures
        draw_all(lv, pal, obj, a + b, prio, palette, mosaic, mosaic_reg) == draw_all(
            draw_all(lv, pal, obj, a, prio, palette, mosaic, mosaic_reg),
            pal,
            obj,
            b,
            prio,
            palette,
            mosaic,
            mosaic_reg,
        ),
    decreases b.len(),
{
    if b.len() == 0 {
        assert(a + b =~= a);
    } else {
        lemma_draw_all_append(lv, pal, obj, a, b.drop_last(), prio, palette, mosaic, mosaic_reg);
        assert((a + b).drop_last() =~= a + b.drop_last());
    }
}

/// A palette number of 4 bits shifted into the high nibble.
pub proof fn lemma_palette_shift(p: u8)
    by (bit_vector)
    requires
        p < 16,
    ensures
        p << 4u8 == p * 16,
{
}

/// Writing one pixel of a set of layers changes its colours at that pixel
/// alone.
proof fn lemma_one_pixel(before: Seq<Vec<Colour>>, after: Seq<Vec<Colour>>, p: int, x: int, c: Seq<u8>)
    requires
        rows(before, 4),
        rows(after, 4),
        0 <= p < 4,
        0 <= x < 240,
        forall|q: int, i: int|
            0 <= q < 4 && 0 <= i < 240 && !(q == p && i == x) ==> #[trigger] after[q]@[i] == before[q]@[i],
        after[p]@[x]@ == c,
    ensures
        layer_colours(after) == layer_colours(before).update(p, layer_colours(before)[p].update(x, c)),
{
    let l = layer_colours(before).update(p, layer_colours(before)[p].update(x, c));
    assert forall|q: int| 0 <= q < 4 implies #[trigger] layer_colours(after)[q] =~= l[q] by {
        assert forall|i: int| 0 <= i < 240 implies #[trigger] layer_colours(after)[q][i] == l[q][i] by {
            if !(q == p && i == x) {
                assert(after[q]@[i] == before[q]@[i]);
            }
        }
    }
    assert(layer_colours(after) =~= l);
}

/// A byte of VRAM at `addr`; the last 32KB are mirrored above its end.
pub open spec fn vram_at(vram: Seq<u8>, addr: int) -> u8 {
    if addr <= 0x17FFF {
        vram[addr]
    } else {
        vram[addr - 0x18000]
    }
}

/// The low nibble of a byte, or its high nibble.
pub open spec fn nibble(b: u8, high: bool) -> u8 {
    if high {
        b / 16
    } else {
        b % 16
    }
}

/// The pixels of a line of a 4-bit tile at `addr`, drawn from `x` on in
/// steps of `step`: two per byte, the low nibble first.
pub open spec fn tile4_writes(vram: Seq<u8>, x: int, step: int, addr: int) -> Seq<(int, u8)> {
    Seq::new(8, |k: int| (x + k * step, nibble(vram_at(vram, addr + k / 2), k % 2 == 1)))
}

/// The pixels of a line of an 8-bit tile at `addr`, drawn from `x` on in
/// steps of `step`.
pub open spec fn tile8_writes(vram: Seq<u8>, x: int, step: int, addr: int) -> Seq<(int, u8)> {
    Seq::new(8, |k: int| (x + k * step, vram_at(vram, addr + k)))
}

/// `after` is `before` but for the layers a pixel drawn to a layer of the
/// kind `obj` changes.
pub open spec fn same_but_layers(before: Ppu, after: Ppu, obj: bool) -> bool {
    &&& after.palette == before.palette && after.vram == before.vram
    &&& after.oam == before.oam && after.pixels == before.pixels
    &&& after.win_masks == before.win_masks
    &&& after.bg_x == before.bg_x && after.bg_y == before.bg_y
    &&& after.last_frame == before.last_frame
    &&& obj ==> after.bg_layers == before.bg_layers
    &&& !obj ==> after.obj_layers == before.obj_layers
}

/// The layers of the kind `obj`.
pub open spec fn layers_of(p: Ppu, obj: bool) -> Seq<Seq<Seq<u8>>> {
    layer_colours(if obj { p.obj_layers@ } else { p.bg_layers@ })
}

/// A colour with its channels stretched to 8 bits.
pub open spec fn adjusted_colour(c: Seq<u8>) -> Seq<u8> {
    seq![adjusted(c[0]), adjusted(c[1]), adjusted(c[2]), c[3]]
}

/// State after computing the window masks of `line`.
pub open spec fn windows_post(before: Ppu, after: Ppu, cnt: u16, win: u16, wout: u16, winh: [u16; 2], winv: [u16; 2], line: u8) -> bool {
    &&& forall|m: int, p: int|
        0 <= m < 5 && 0 <= p < 240 ==> #[trigger] after.win_masks@[m]@[p] == window_mask(
            cnt,
            win,
            wout,
            winh,
            winv,
            line,
            m,
            p,
        )
    &&& after.palette == before.palette && after.vram == before.vram
    &&& after.oam == before.oam && after.pixels == before.pixels
    &&& after.bg_layers == before.bg_layers && after.obj_layers == before.obj_layers
    &&& after.bg_x == before.bg_x && after.bg_y == before.bg_y
    &&& after.last_frame == before.last_frame
}

/// State after composing `line` from the layers and clearing them.
pub open spec fn finish_post(before: Ppu, after: Ppu, line: u16) -> bool {
    &&& forall|x: int|
        0 <= x < 240 ==> (#[trigger] after.pixels@[line * 240 + x])@ == match top_pixel(
            before.obj_layers@,
            before.bg_layers@,
            x,
            0,
        ) {
            Some(c) => adjusted_colour(c@),
            None => adjusted_colour(colour_of(hword_at(before.palette@, 0))),
        }
    &&& forall|i: int|
        0 <= i < 240 * 160 && !(line * 240 <= i < line * 240 + 240) ==> #[trigger] after.pixels@[i]
            == before.pixels@[i]
    &&& forall|l: int, x: int| 0 <= l < 4 && 0 <= x < 240 ==> is_empty(#[trigger] after.bg_layers@[l]@[x])
    &&& forall|l: int, x: int| 0 <= l < 4 && 0 <= x < 240 ==> is_empty(#[trigger] after.obj_layers@[l]@[x])
    &&& after.palette == before.palette && after.vram == before.vram
    &&& after.oam == before.oam && after.win_masks == before.win_masks
    &&& after.bg_x == before.bg_x && after.bg_y == before.bg_y
    &&& after.last_frame == before.last_frame
}

impl Ppu {
    /// A PPU with cleared memory and buffers, every layer drawable.
    pub fn new() -> (p: Self)
        ensures
            p.wf(),
            p.last_frame is None,
            forall|l: int, x: int| 0 <= l < 4 && 0 <= x < 240 ==> is_empty(#[trigger] p.bg_layers@[l]@[x]),
            forall|l: int, x: int| 0 <= l < 4 && 0 <= x < 240 ==> is_empty(#[trigger] p.obj_layers@[l]@[x]),
            forall|m: int, x: int| 0 <= m < 5 && 0 <= x < 240 ==> #[trigger] p.win_masks@[m]@[x],
    {
        let empty: Colour = [0, 0, 0, 0];
        let black: Colour = [0, 0, 0, 255];
        Ppu {
            palette: filled(0u8, KB),
            vram: filled(0u8, 96 * KB),
            oam: filled(0u8, KB),
            pixels: filled(black, 240 * 160),
            bg_layers: filled_rows(empty, 4),
            obj_layers: filled_rows(empty, 4),
            win_masks: filled_rows(true, 5),
            bg_x: [0; 2],
            bg_y: [0; 2],
            last_frame: None,
        }
    }

    /// The pixel at `x` of a layer of priority `prio`, if `x` is on screen.
    pub fn get_pixel<const OBJ: bool>(&self, x: u16, prio: u16) -> (r: Option<Colour>)
        requires
            self.wf(),
            prio < 4,
        ensures
            x >= 240 ==> r is None,
            x < 240 ==> r == Some(
                if OBJ { self.obj_layers@[prio as int]@[x as int] } else { self.bg_layers@[prio as int]@[x as int] },
            ),
    {
        if x >= 240 {
            return None;
        }
        if OBJ {
            Some(self.obj_layers[prio as usize][x as usize])
        } else {
            Some(self.bg_layers[prio as usize][x as usize])
        }
    }

    /// Write pixel `x` of a layer of priority `prio`.
    fn write_layer<const OBJ: bool>(&mut self, prio: u16, x: u16, c: Colour)
        requires
            old(self).wf(),
            prio < 4,
            x < 240,
        ensures
            final(self).wf(),
            OBJ ==> final(self).obj_layers@ == old(self).obj_layers@.update(
                prio as int,
                final(self).obj_layers@[prio as int],
            ) && final(self).obj_layers@[prio as int]@ == old(self).obj_layers@[prio as int]@.update(x as int, c)
                && final(self).bg_layers == old(self).bg_layers,
            !OBJ ==> final(self).bg_layers@ == old(self).bg_layers@.update(
                prio as int,
                final(self).bg_layers@[prio as int],
            ) && final(self).bg_layers@[prio as int]@ == old(self).bg_layers@[prio as int]@.update(x as int, c)
                && final(self).obj_layers == old(self).obj_layers,
            final(self).palette == old(self).palette && final(self).vram == old(self).vram,
            final(self).oam == old(self).oam && final(self).pixels == old(self).pixels,
            final(self).win_masks == old(self).win_masks,
            final(self).bg_x == old(self).bg_x && final(self).bg_y == old(self).bg_y,
            final(self).last_frame == old(self).last_frame,
    {
        if OBJ {
            self.obj_layers[prio as usize].set(x as usize, c);
            proof {
                assert forall|i: int| 0 <= i < 4 implies (#[trigger] self.obj_layers@[i])@.len() == 240 by {
                    if i != prio {
                        assert(self.obj_layers@[i] == old(self).obj_layers@[i]);
                    }
                }
            }
        } else {
            self.bg_layers[prio as usize].set(x as usize, c);
            proof {
                assert forall|i: int| 0 <= i < 4 implies (#[trigger] self.bg_layers@[i])@.len() == 240 by {
                    if i != prio {
                        assert(self.bg_layers@[i] == old(self).bg_layers@[i]);
                    }
                }
            }
        }
    }

    /// Draw a pixel of colour `colour_idx` of `palette` into a layer. Index
    /// 0 is transparent; with mosaic, a pixel off the mosaic grid repeats
    /// the pixel on it. `mosaic_reg` is the MOSAIC register.
    pub fn set_pixel<const OBJ: bool>(
        &mut self,
        x: i16,
        prio: u16,
        palette: u8,
        colour_idx: u8,
        mosaic: bool,
        mosaic_reg: u16,
    )
        requires
            old(self).wf(),
            prio < 4,
            (palette << 4u8) + colour_idx <= 255,
        ensures
            final(self).wf(),
            final(self).palette == old(self).palette && final(self).vram == old(self).vram,
            final(self).oam == old(self).oam && final(self).pixels == old(self).pixels,
            final(self).win_masks == old(self).win_masks,
            final(self).bg_x == old(self).bg_x && final(self).bg_y == old(self).bg_y,
            final(self).last_frame == old(self).last_frame,
            ({
                let before = if OBJ { old(self).obj_layers@ } else { old(self).bg_layers@ };
                let after = if OBJ { final(self).obj_layers@ } else { final(self).bg_layers@ };
                let stretch: int = if OBJ { ((mosaic_reg / 256) % 16) as int } else { (mosaic_reg % 16) as int };
                let xi = x as int;
                &&& OBJ ==> final(self).bg_layers == old(self).bg_layers
                &&& !OBJ ==> final(self).obj_layers == old(self).obj_layers
                &&& forall|p: int, i: int|
                    0 <= p < 4 && 0 <= i < 240 && !(p == prio && i == x) ==> #[trigger] after[p]@[i] == before[p]@[i]
                &&& !(0 <= x < 240) || colour_idx == 0 ==> after == before
                &&& 0 <= x < 240 && colour_idx != 0 ==> if mosaic && stretch != 0 && xi % stretch != 0 {
                    after[prio as int]@[x as int] == before[prio as int]@[xi - xi % stretch]
                } else {
                    after[prio as int]@[x as int]@ == colour_of(
                        hword_at(
                            old(self).palette@,
                            ((palette << 4u8) + colour_idx) * 2 + if OBJ { 0x200int } else { 0int },
                        ),
                    )
                }
                &&& layer_colours(after) == put_pixel(
                    layer_colours(before),
                    old(self).palette@,
                    OBJ,
                    x as int,
                    prio as int,
                    palette,
                    colour_idx,
                    mosaic,
                    mosaic_reg,
                )
            }),
    {
        if !(0 <= x && x < 240) || colour_idx == 0 {
            return;
        }
        let xu = x as u16;

        if mosaic {
            let stretch = if OBJ {
                (mosaic_reg / 256) % 16
            } else {
                mosaic_reg % 16
            };
            if stretch != 0 && xu % stretch != 0 {
                proof {
                    assert(xu % stretch <= xu) by (nonlinear_arith)
                        requires
                            stretch != 0,
                    ;
                }
                let actual_x = xu - (xu % stretch);
                if let Some(colour) = self.get_pixel::<OBJ>(actual_x, prio) {
                    self.write_layer::<OBJ>(prio, xu, colour);
                    proof {
                        let before = if OBJ { old(self).obj_layers@ } else { old(self).bg_layers@ };
                        let after = if OBJ { self.obj_layers@ } else { self.bg_layers@ };
                        lemma_one_pixel(before, after, prio as int, x as int, colour@);
                    }
                    return;
                }
            }
        }

        let colour = self.idx_to_palette::<OBJ>((palette << 4u8) + colour_idx);
        self.write_layer::<OBJ>(prio, xu, colour);
        proof {
            let before = if OBJ { old(self).obj_layers@ } else { old(self).bg_layers@ };
            let after = if OBJ { self.obj_layers@ } else { self.bg_layers@ };
            lemma_one_pixel(before, after, prio as int, x as int, colour@);
        }
    }

    /// Draw a line of a 4-bit tile at `tile_addr` in VRAM with `palette`,
    /// from `x` on in steps of `x_step`.
    pub fn render_tile_4bpp<const OBJ: bool>(
        &mut self,
        prio: u16,
        x: i16,
        x_step: i16,
        tile_addr: usize,
        palette: u8,
        mosaic: bool,
        mosaic_reg: u16,
    )
        requires
            old(self).wf(),
            prio < 4,
            palette < 16,
            tile_addr + 4 <= 0x3_0000,
            x_step == 1 || x_step == -1,
            -0x1000 <= x <= 0x1000,
        ensures
            final(self).wf(),
            same_but_layers(*old(self), *final(self), OBJ),
            layers_of(*final(self), OBJ) == draw_all(
                layers_of(*old(self), OBJ),
                old(self).palette@,
                OBJ,
                tile4_writes(old(self).vram@, x as int, x_step as int, tile_addr as int),
                prio as int,
                palette,
                mosaic,
                mosaic_reg,
            ),
    {
        let ghost w = tile4_writes(self.vram@, x as int, x_step as int, tile_addr as int);
        let ghost lv0 = layers_of(*self, OBJ);
        proof {
            lemma_palette_shift(palette);
            assert(w.take(0) =~= Seq::<(int, u8)>::empty());
        }
        let mut px = x;
        let mut idx: usize = 0;
        while idx < 4
            invariant
                self.wf(),
                prio < 4,
                palette < 16,
                palette << 4u8 == palette * 16,
                tile_addr + 4 <= 0x3_0000,
                x_step == 1 || x_step == -1,
                -0x1000 <= x <= 0x1000,
                idx <= 4,
                px == x + 2 * idx * x_step,
                same_but_layers(*old(self), *self, OBJ),
                w == tile4_writes(old(self).vram@, x as int, x_step as int, tile_addr as int),
                lv0 == layers_of(*old(self), OBJ),
                layers_of(*self, OBJ) == draw_all(
                    lv0,
                    old(self).palette@,
                    OBJ,
                    w.take(2 * idx as int),
                    prio as int,
                    palette,
                    mosaic,
                    mosaic_reg,
                ),
            decreases 4 - idx,
        {
            let byte = self.vram(tile_addr + idx);
            self.set_pixel::<OBJ>(px, prio, palette, byte % 16, mosaic, mosaic_reg);
            proof {
                assert(w.take(2 * idx + 1).drop_last() =~= w.take(2 * idx as int));
                assert(w.take(2 * idx + 1).last() == (px as int, byte % 16));
                assert(layers_of(*self, OBJ) == draw_all(
                    lv0,
                    old(self).palette@,
                    OBJ,
                    w.take(2 * idx + 1),
                    prio as int,
                    palette,
                    mosaic,
                    mosaic_reg,
                ));
            }
            px = px + x_step;
            self.set_pixel::<OBJ>(px, prio, palette, byte / 16, mosaic, mosaic_reg);
            proof {
                assert(w.take(2 * idx + 2).drop_last() =~= w.take(2 * idx + 1));
                assert(w.take(2 * idx + 2).last() == (px as int, byte / 16));
            }
            px = px + x_step;
            idx += 1;
        }
        proof {
            assert(w.take(8) =~= w);
        }
    }

    /// Draw a line of an 8-bit tile at `tile_addr` in VRAM, from `x` on in
    /// steps of `x_step`.
    pub fn render_tile_8bpp<const OBJ: bool>(
        &mut self,
        prio: u16,
        x: i16,
        x_step: i16,
        tile_addr: usize,
        mosaic: bool,
        mosaic_reg: u16,
    )
        requires
            old(self).wf(),
            prio < 4,
            tile_addr + 8 <= 0x3_0000,
            x_step == 1 || x_step == -1,
            -0x1000 <= x <= 0x1000,
        ensures
            final(self).wf(),
            same_but_layers(*old(self), *final(self), OBJ),
            layers_of(*final(self), OBJ) == draw_all(
                layers_of(*old(self), OBJ),
                old(self).palette@,
                OBJ,
                tile8_writes(old(self).vram@, x as int, x_step as int, tile_addr as int),
                prio as int,
                0,
                mosaic,
                mosaic_reg,
            ),
    {
        let ghost w = tile8_writes(self.vram@, x as int, x_step as int, tile_addr as int);
        let ghost lv0 = layers_of(*self, OBJ);
        proof {
            lemma_palette_shift(0);
            assert(w.take(0) =~= Seq::<(int, u8)>::empty());
        }
        let mut px = x;
        let mut idx: usize = 0;
        while idx < 8
            invariant
                self.wf(),
                prio < 4,
                0u8 << 4u8 == 0,
                tile_addr + 8 <= 0x3_0000,
                x_step == 1 || x_step == -1,
                -0x1000 <= x <= 0x1000,
                idx <= 8,
                px == x + idx * x_step,
                same_but_layers(*old(self), *self, OBJ),
                w == tile8_writes(old(self).vram@, x as int, x_step as int, tile_addr as int),
                lv0 == layers_of(*old(self), OBJ),
                layers_of(*self, OBJ) == draw_all(
                    lv0,
                    old(self).palette@,
                    OBJ,
                    w.take(idx as int),
                    prio as int,
                    0,
                    mosaic,
                    mosaic_reg,
                ),
            decreases 8 - idx,
        {
            let colour = self.vram(tile_addr + idx);
            self.set_pixel::<OBJ>(px, prio, 0, colour, mosaic, mosaic_reg);
            proof {
                assert(w.take(idx + 1).drop_last() =~= w.take(idx as int));
                assert(w.take(idx + 1).last() == (px as int, colour));
            }
            px = px + x_step;
            idx += 1;
        }
        proof {
            assert(w.take(8) =~= w);
        }
    }

    /// Compute which layers may draw each pixel of `line`, from the window
    /// registers: DISPCNT, WININ, WINOUT, WIN0H/WIN1H and WIN0V/WIN1V.
    pub fn calc_windows(&mut self, cnt: u16, win: u16, wout: u16, winh: [u16; 2], winv: [u16; 2], line: u8)
        requires
            old(self).wf(),
        ensures
            final(self).wf(),
            windows_post(*old(self), *final(self), cnt, win, wout, winh, winv, line),
    {
        let enabled = [Self::bit(cnt, 13), Self::bit(cnt, 14)];
        if !enabled[0] && !enabled[1] && !Self::bit(cnt, 15) {
            // No windows enabled, allow everything to draw
            self.win_masks = filled_rows(true, 5);
            return;
        }
        let (x1_0, x2_0) = Self::window_coords::<240>(winh[0]);
        let (y1_0, y2_0) = Self::window_coords::<160>(winv[0]);
        let (x1_1, x2_1) = Self::window_coords::<240>(winh[1]);
        let (y1_1, y2_1) = Self::window_coords::<160>(winv[1]);
        let in0 = enabled[0] && y1_0 <= line && line < y2_0;
        let in1 = enabled[1] && y1_1 <= line && line < y2_1;

        let mut masks: Vec<Vec<bool>> = Vec::new();
        let mut m: u16 = 0;
        while m < 5
            invariant
                m <= 5,
                masks@.len() == m,
                in0 == (reg_bit(cnt, 13) && window_range(winv[0], 160).0 <= line < window_range(winv[0], 160).1),
                in1 == (reg_bit(cnt, 14) && window_range(winv[1], 160).0 <= line < window_range(winv[1], 160).1),
                (x1_0, x2_0) == window_range(winh[0], 240),
                (x1_1, x2_1) == window_range(winh[1], 240),
                reg_bit(cnt, 13) || reg_bit(cnt, 14) || reg_bit(cnt, 15),
                forall|i: int| 0 <= i < m ==> (#[trigger] masks@[i])@.len() == 240,
                forall|i: int, p: int|
                    0 <= i < m && 0 <= p < 240 ==> #[trigger] masks@[i]@[p] == window_mask(
                        cnt,
                        win,
                        wout,
                        winh,
                        winv,
                        line,
                        i,
                        p,
                    ),
            decreases 5 - m,
        {
            let outside = Self::bit(wout, m);
            let inside0 = Self::bit(win, m);
            let inside1 = Self::bit(win, 8 + m);
            let mut row: Vec<bool> = Vec::new();
            let mut p: u8 = 0;
            while p < 240
                invariant
                    p <= 240,
                    row@.len() == p,
                    m < 5,
                    in0 == (reg_bit(cnt, 13) && window_range(winv[0], 160).0 <= line < window_range(winv[0], 160).1),
                    in1 == (reg_bit(cnt, 14) && window_range(winv[1], 160).0 <= line < window_range(winv[1], 160).1),
                    (x1_0, x2_0) == window_range(winh[0], 240),
                    (x1_1, x2_1) == window_range(winh[1], 240),
                    reg_bit(cnt, 13) || reg_bit(cnt, 14) || reg_bit(cnt, 15),
                    outside == reg_bit(wout, m as int),
                    inside0 == reg_bit(win, m as int),
                    inside1 == reg_bit(win, 8 + m),
                    forall|q: int| 0 <= q < p ==> #[trigger] row@[q] == window_mask(
                        cnt,
                        win,
                        wout,
                        winh,
                        winv,
                        line,
                        m as int,
                        q,
                    ),
                decreases 240 - p,
            {
                let v = if in0 && x1_0 <= p && p < x2_0 {
                    inside0
                } else if in1 && x1_1 <= p && p < x2_1 {
                    inside1
                } else {
                    outside
                };
                row.push(v);
                p = p + 1;
            }
            masks.push(row);
            m = m + 1;
        }
        self.win_masks = masks;
    }

    /// Bit `b` of a register.
    pub fn bit(value: u16, b: u16) -> (r: bool)
        requires
            b < 16,
        ensures
            r == reg_bit(value, b as int),
    {
        let p: u16 = if b == 0 {
            1
        } else if b == 1 {
            2
        } else if b == 2 {
            4
        } else if b == 3 {
            8
        } else if b == 4 {
            16
        } else if b == 5 {
            32
        } else if b == 6 {
            64
        } else if b == 7 {
            128
        } else if b == 8 {
            256
        } else if b == 9 {
            512
        } else if b == 10 {
            1024
        } else if b == 11 {
            2048
        } else if b == 12 {
            4096
        } else if b == 13 {
            8192
        } else if b == 14 {
            16384
        } else {
            32768
        };
        (value / p) % 2 == 1
    }

    /// Compose `line` from the layers: the topmost drawn pixel, objects over
    /// backgrounds of the same priority, else the backdrop (palette entry
    /// 0); then clear the layers for the next line.
    pub fn finish_line(&mut self, line: u16)
        requires
            old(self).wf(),
            line < 160,
        ensures
            final(self).wf(),
            finish_post(*old(self), *final(self), line),
    {
        let start = line as usize * 240;
        let mut backdrop = self.idx_to_palette::<false>(0); // BG0 is backdrop
        Self::adjust_pixel(&mut backdrop);

        let mut x: usize = 0;
        while x < 240
            invariant
                self.wf(),
                start == line * 240,
                line < 160,
                x <= 240,
                backdrop@ == adjusted_colour(colour_of(hword_at(old(self).palette@, 0))),
                self.bg_layers == old(self).bg_layers && self.obj_layers == old(self).obj_layers,
                self.palette == old(self).palette && self.vram == old(self).vram,
                self.oam == old(self).oam && self.win_masks == old(self).win_masks,
                self.bg_x == old(self).bg_x && self.bg_y == old(self).bg_y,
                self.last_frame == old(self).last_frame,
                forall|i: int|
                    0 <= i < 240 * 160 && !(start <= i < start + x) ==> #[trigger] self.pixels@[i]
                        == old(self).pixels@[i],
                forall|q: int|
                    0 <= q < x ==> (#[trigger] self.pixels@[start + q])@ == match top_pixel(
                        old(self).obj_layers@,
                        old(self).bg_layers@,
                        q,
                        0,
                    ) {
                        Some(c) => adjusted_colour(c@),
                        None => adjusted_colour(colour_of(hword_at(old(self).palette@, 0))),
                    },
            decreases 240 - x,
        {
            let mut pixel = backdrop;
            let mut prio: usize = 0;
            let mut found = false;
            while prio < 4 && !found
                invariant
                    self.wf(),
                    x < 240,
                    prio <= 4,
                    self.bg_layers == old(self).bg_layers && self.obj_layers == old(self).obj_layers,
                    found ==> pixel@ == match top_pixel(self.obj_layers@, self.bg_layers@, x as int, 0) {
                        Some(c) => adjusted_colour(c@),
                        None => backdrop@,
                    },
                    !found ==> pixel == backdrop && top_pixel(self.obj_layers@, self.bg_layers@, x as int, 0)
                        == top_pixel(self.obj_layers@, self.bg_layers@, x as int, prio as int),
                decreases 4 - prio, if found { 0int } else { 1int },
            {
                let o = self.obj_layers[prio][x];
                let b = self.bg_layers[prio][x];
                if !(o[0] == 0 && o[1] == 0 && o[2] == 0 && o[3] == 0) {
                    proof {
                        assert(!is_empty(o));
                    }
                    pixel = o;
                    Self::adjust_pixel(&mut pixel);
                    found = true;
                } else if !(b[0] == 0 && b[1] == 0 && b[2] == 0 && b[3] == 0) {
                    proof {
                        assert(is_empty(o)) by {
                            assert(o@ =~= seq![0u8, 0, 0, 0]);
                        }
                        assert(!is_empty(b));
                    }
                    pixel = b;
                    Self::adjust_pixel(&mut pixel);
                    found = true;
                } else {
                    proof {
                        assert(o@ =~= seq![0u8, 0, 0, 0]);
                        assert(b@ =~= seq![0u8, 0, 0, 0]);
                    }
                    prio = prio + 1;
                }
            }
            proof {
                if !found {
                    assert(adjusted_colour(colour_of(hword_at(old(self).palette@, 0))) =~= backdrop@);
                } else if let Some(c) = top_pixel(self.obj_layers@, self.bg_layers@, x as int, 0) {
                    assert(adjusted_colour(c@) =~= pixel@);
                }
            }
            self.pixels.set(start + x, pixel);
            x = x + 1;
        }

        // Clear last line buffers
        let empty: Colour = [0, 0, 0, 0];
        self.bg_layers = filled_rows(empty, 4);
        self.obj_layers = filled_rows(empty, 4);
        proof {
            assert forall|l: int, x: int| 0 <= l < 4 && 0 <= x < 240 implies is_empty(#[trigger] self.bg_layers@[l]@[x]) by {
                assert(self.bg_layers@[l]@[x]@ =~= seq![0u8, 0, 0, 0]);
            }
            assert forall|l: int, x: int| 0 <= l < 4 && 0 <= x < 240 implies is_empty(#[trigger] self.obj_layers@[l]@[x]) by {
                assert(self.obj_layers@[l]@[x]@ =~= seq![0u8, 0, 0, 0]);
            }
        }
    }

    /// Reload the reference points of the affine backgrounds (at the start
    /// of a frame) from BG2X, BG2Y, BG3X and BG3Y, each given as its low and
    /// high register: `refs[i]` is `[x_lo, x_hi, y_lo, y_hi]` of BG(2 + i).
    pub fn reload_affine_bgs(&mut self, refs: [[u16; 4]; 2])
        ensures
            forall|i: int| 0 <= i < 2 ==> {
                &&& final(self).bg_x[i] == affine_offs(refs[i][0], refs[i][1])
                &&& final(self).bg_y[i] == affine_offs(refs[i][2], refs[i][3])
            },
            final(self).palette == old(self).palette && final(self).vram == old(self).vram,
            final(self).oam == old(self).oam && final(self).pixels == old(self).pixels,
            final(self).bg_layers == old(self).bg_layers && final(self).obj_layers == old(self).obj_layers,
            final(self).win_masks == old(self).win_masks && final(self).last_frame == old(self).last_frame,
    {
        self.bg_x[0] = Self::get_affine_offs(refs[0][0], refs[0][1]);
        self.bg_y[0] = Self::get_affine_offs(refs[0][2], refs[0][3]);
        self.bg_x[1] = Self::get_affine_offs(refs[1][0], refs[1][1]);
        self.bg_y[1] = Self::get_affine_offs(refs[1][2], refs[1][3]);
    }
}

/// The PPU as the system holds it (rendering on the emulation thread).
/// DISPCNT bit: the second frame of the bitmap modes is shown.
pub const FRAME_SELECT: u16 = 4;
/// DISPCNT bit: BG2 is enabled.
pub const BG2_EN: u16 = 10;

/// `bg_layers` of `after` is that of `before` with row 0 replaced, and
/// all else is kept.
pub open spec fn only_bg0_changed(before: Ppu, after: Ppu) -> bool {
    &&& after.bg_layers@.len() == before.bg_layers@.len()
    &&& forall|l: int| 1 <= l < 4 ==> #[trigger] after.bg_layers@[l] == before.bg_layers@[l]
    &&& after.bg_layers@[0]@.len() == 240
    &&& after.palette == before.palette && after.vram == before.vram && after.oam == before.oam
    &&& after.pixels == before.pixels && after.obj_layers == before.obj_layers
    &&& after.win_masks == before.win_masks
    &&& after.bg_x == before.bg_x && after.bg_y == before.bg_y
    &&& after.last_frame == before.last_frame
}

/// Start of the shown frame of the bitmap modes in VRAM.
pub open spec fn bitmap_start(dispcnt: u16) -> int {
    if (dispcnt / 16) % 2 == 1 {
        0xA000
    } else {
        0
    }
}

/// State after drawing the background of bitmap mode 3 on `line`.
pub open spec fn bitmap3_post(before: Ppu, after: Ppu, dispcnt: u16, line: u16) -> bool {
    &&& (dispcnt / 0x400) % 2 == 0 ==> after == before
    &&& (dispcnt / 0x400) % 2 == 1 ==> only_bg0_changed(before, after) && forall|x: int|
        0 <= x < 240 ==> (#[trigger] after.bg_layers@[0]@[x])@ == colour_of(
            hword_at(before.vram@, (line * 240 + x) * 2),
        )
}

/// State after drawing the background of bitmap mode 4 on `line`.
pub open spec fn bitmap4_post(before: Ppu, after: Ppu, dispcnt: u16, line: u16) -> bool {
    &&& (dispcnt / 0x400) % 2 == 0 ==> after == before
    &&& (dispcnt / 0x400) % 2 == 1 ==> only_bg0_changed(before, after) && forall|x: int|
        0 <= x < 240 ==> {
            let idx = before.vram@[bitmap_start(dispcnt) + line * 240 + x];
            if idx != 0 {
                (#[trigger] after.bg_layers@[0]@[x])@ == colour_of(hword_at(before.palette@, idx * 2))
            } else {
                after.bg_layers@[0]@[x] == before.bg_layers@[0]@[x]
            }
        }
}

/// State after drawing the background of bitmap mode 5 on `line`.
pub open spec fn bitmap5_post(before: Ppu, after: Ppu, dispcnt: u16, line: u16) -> bool {
    &&& line > 127 || (dispcnt / 0x400) % 2 == 0 ==> after == before
    &&& line <= 127 && (dispcnt / 0x400) % 2 == 1 ==> only_bg0_changed(before, after) && forall|x: int|
        0 <= x < 240 ==> if x < 160 {
            (#[trigger] after.bg_layers@[0]@[x])@ == colour_of(
                hword_at(before.vram@, (bitmap_start(dispcnt) + line * 160 + x) * 2),
            )
        } else {
            after.bg_layers@[0]@[x] == before.bg_layers@[0]@[x]
        }
}

impl Ppu {
    /// Start of the shown frame of the bitmap modes in VRAM, by DISPCNT.
    pub fn bitmap_start_addr(dispcnt: u16) -> (r: usize)
        ensures
            r == bitmap_start(dispcnt),
    {
        if (dispcnt / 16) % 2 == 0 {
            0x0
        } else {
            0xA000
        }
    }

    /// The background of bitmap mode 3: BG2 shows line `line` of a 240 by
    /// 160 frame of 15-bit colours.
    pub fn bitmap_mode3(&mut self, dispcnt: u16, line: u16)
        requires
            old(self).wf(),
            line < 160,
        ensures
            final(self).wf(),
            bitmap3_post(*old(self), *final(self), dispcnt, line),
    {
        if (dispcnt / 0x400) % 2 == 0 {
            return;
        }
        let line_start = line as usize * 240;
        let mut offs: usize = 0;
        while offs < 240
            invariant
                self.wf(),
                line < 160,
                line_start == line * 240,
                offs <= 240,
                only_bg0_changed(*old(self), *self),
                forall|x: int|
                    0 <= x < offs ==> (#[trigger] self.bg_layers@[0]@[x])@ == colour_of(
                        hword_at(old(self).vram@, (line * 240 + x) * 2),
                    ),
            decreases 240 - offs,
        {
            let pixel = line_start + offs;
            let c = self.hword_to_colour_vram(pixel * 2);
            self.write_layer::<false>(0, offs as u16, c);
            offs += 1;
        }
    }

    /// The background of bitmap mode 4: BG2 shows line `line` of a 240 by
    /// 160 frame of palette indices, in the frame DISPCNT selects; index 0 is
    /// transparent.
    pub fn bitmap_mode4(&mut self, dispcnt: u16, line: u16)
        requires
            old(self).wf(),
            line < 160,
        ensures
            final(self).wf(),
            bitmap4_post(*old(self), *final(self), dispcnt, line),
    {
        if (dispcnt / 0x400) % 2 == 0 {
            return;
        }
        let line_start = line as usize * 240;
        let start_addr = Self::bitmap_start_addr(dispcnt) + line_start;
        let mut offs: usize = 0;
        while offs < 240
            invariant
                self.wf(),
                line < 160,
                start_addr == bitmap_start(dispcnt) + line * 240,
                offs <= 240,
                only_bg0_changed(*old(self), *self),
                self.vram == old(self).vram && self.palette == old(self).palette,
                forall|x: int|
                    0 <= x < 240 ==> {
                        let idx = old(self).vram@[bitmap_start(dispcnt) + line * 240 + x];
                        if x < offs && idx != 0 {
                            (#[trigger] self.bg_layers@[0]@[x])@ == colour_of(hword_at(old(self).palette@, idx * 2))
                        } else {
                            self.bg_layers@[0]@[x] == old(self).bg_layers@[0]@[x]
                        }
                    },
            decreases 240 - offs,
        {
            let palette = self.vram[start_addr + offs];
            if palette != 0 {
                let c = self.idx_to_palette::<false>(palette);
                self.write_layer::<false>(0, offs as u16, c);
            }
            offs += 1;
        }
    }

    /// The background of bitmap mode 5: BG2 shows line `line` of a 160 by
    /// 128 frame of 15-bit colours, in the frame DISPCNT selects (counted in
    /// pixels from the frame's start).
    pub fn bitmap_mode5(&mut self, dispcnt: u16, line: u16)
        requires
            old(self).wf(),
            line <= 127 && (dispcnt / 0x400) % 2 == 1 ==> (bitmap_start(dispcnt) + line * 160 + 159) * 2 + 1 < 96
                * KB,
        ensures
            final(self).wf(),
            bitmap5_post(*old(self), *final(self), dispcnt, line),
    {
        if line > 127 || (dispcnt / 0x400) % 2 == 0 {
            return;
        }
        let vram_start = Self::bitmap_start_addr(dispcnt);
        let line_start = vram_start + line as usize * 160;
        let mut offs: usize = 0;
        while offs < 160
            invariant
                self.wf(),
                line <= 127,
                line_start == bitmap_start(dispcnt) + line * 160,
                (line_start + 159) * 2 + 1 < 96 * KB,
                offs <= 160,
                only_bg0_changed(*old(self), *self),
                forall|x: int|
                    0 <= x < 240 ==> if x < offs {
                        (#[trigger] self.bg_layers@[0]@[x])@ == colour_of(
                            hword_at(old(self).vram@, (bitmap_start(dispcnt) + line * 160 + x) * 2),
                        )
                    } else {
                        self.bg_layers@[0]@[x] == old(self).bg_layers@[0]@[x]
                    },
            decreases 160 - offs,
        {
            let pixel = line_start + offs;
            let c = self.hword_to_colour_vram(pixel * 2);
            self.write_layer::<false>(0, offs as u16, c);
            offs += 1;
        }
    }
}

pub type GgaPpu = Ppu;

/// A new PPU for a system.
pub fn new_ppu() -> (p: GgaPpu)
    ensures
        p.wf(),
        p.last_frame is None,
{
    Ppu::new()
}

/// A scanline takes 1232 cycles: its three events follow each other and
/// come back to the start, and VCOUNT counts the 228 lines of a frame.
pub proof fn lemma_scanline_cycle(vcount: u16, dispstat: u16)
    requires
        vcount < 228,
    ensures
        ({
            let a = ppu_step(PpuEvent::HblankStart, vcount, dispstat);
            let b = ppu_step(a.next, a.vcount, a.dispstat);
            let c = ppu_step(b.next, b.vcount, b.dispstat);
            &&& a.next == PpuEvent::SetHblank
            &&& b.next == PpuEvent::HblankEnd
            &&& c.next == PpuEvent::HblankStart
            &&& a.cycles + b.cycles + c.cycles == 1232
            &&& c.vcount == (vcount + 1) % 228
        }),
{
}

} // verus!

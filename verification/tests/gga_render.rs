use gamegirl::gga::graphics::Ppu;
use gamegirl::gga::render::LineRegs;

fn regs(dispcnt: u16) -> LineRegs {
    LineRegs {
        dispcnt,
        bgcnt: [0; 4],
        hofs: [0; 4],
        vofs: [0; 4],
        affine: [[0x100, 0, 0, 0x100]; 2],
        mosaic: 0,
        winin: 0,
        winout: 0,
        winh: [0; 2],
        winv: [0; 2],
    }
}

fn set_colour(ppu: &mut Ppu, addr: usize, hword: u16) {
    ppu.palette[addr] = (hword & 0xFF) as u8;
    ppu.palette[addr + 1] = (hword >> 8) as u8;
}

fn text_ppu() -> Ppu {
    let mut ppu = Ppu::new();
    ppu.vram[0x800] = 2;
    ppu.vram[0x801] = 0x30;
    ppu.vram[76] = 0x54;
    set_colour(&mut ppu, 104, 0x001F);
    set_colour(&mut ppu, 106, 0x03E0);
    ppu
}

#[test]
fn lines_past_the_screen_draw_nothing() {
    let mut ppu = Ppu::new();
    ppu.render_line(&regs(0x80), 160);
    assert!(ppu.pixels.iter().all(|p| *p == [0, 0, 0, 255]));
}

#[test]
fn forced_blank_draws_white() {
    let mut ppu = Ppu::new();
    ppu.render_line(&regs(0x80), 3);
    for x in 0..240 {
        assert_eq!([31, 31, 31, 255], ppu.pixels[3 * 240 + x]);
    }
    assert_eq!([0, 0, 0, 255], ppu.pixels[2 * 240 + 239]);
    assert_eq!([0, 0, 0, 255], ppu.pixels[4 * 240]);
}

#[test]
fn mode3_line_is_composed_with_full_intensity() {
    let mut ppu = Ppu::new();
    ppu.vram[(5 * 240 + 2) * 2] = 0x1F;
    ppu.render_line(&regs(0x0403), 5);
    assert_eq!([255, 0, 0, 255], ppu.pixels[5 * 240 + 2]);
    // Black bitmap pixels are drawn, not transparent
    assert_eq!([0, 0, 0, 255], ppu.pixels[5 * 240 + 3]);
    // The layers are cleared for the next line
    assert_eq!([0, 0, 0, 0], ppu.bg_layers[0][2]);
}

#[test]
fn mode0_line_shows_text_background_over_backdrop() {
    let mut ppu = text_ppu();
    set_colour(&mut ppu, 0, 0x7C00);
    let mut r = regs(0x0100);
    r.bgcnt[0] = 0x0101;
    ppu.render_line(&r, 3);
    assert_eq!([255, 0, 0, 255], ppu.pixels[3 * 240]);
    assert_eq!([0, 255, 0, 255], ppu.pixels[3 * 240 + 1]);
    // Backdrop
    assert_eq!([0, 0, 255, 255], ppu.pixels[3 * 240 + 2]);
    // The same registers in the invalid mode 6 draw only the backdrop
    let mut ppu = text_ppu();
    let mut r = regs(0x0106);
    r.bgcnt[0] = 0x0101;
    ppu.render_line(&r, 3);
    assert_eq!([0, 0, 0, 255], ppu.pixels[3 * 240]);
}

#[test]
fn window_masks_of_the_line() {
    let mut ppu = text_ppu();
    // Window 0 on pixel 0 of lines 0 to 10, showing nothing inside;
    // everything outside.
    let mut r = regs(0x2100);
    r.bgcnt[0] = 0x0101;
    r.winh = [0x0000, 0];
    r.winv = [0x000A, 0];
    r.winout = 0x1F;
    ppu.render_line(&r, 3);
    assert!(!ppu.win_masks[0][0]);
    assert!(!ppu.win_masks[4][0]);
    assert!(ppu.win_masks[0][1]);
    // The masks are computed; the layers are drawn regardless of them.
    assert_eq!([255, 0, 0, 255], ppu.pixels[3 * 240]);
    assert_eq!([0, 255, 0, 255], ppu.pixels[3 * 240 + 1]);
    // Line 11 is below the window
    let mut ppu = text_ppu();
    ppu.render_line(&r, 11);
    assert!(ppu.win_masks[0][0]);
}

#[test]
fn affine_reference_points_reload() {
    let mut ppu = Ppu::new();
    ppu.reload_affine_bgs([[0x1234, 0x0001, 0x0000, 0x0800], [0xFFFF, 0x07FF, 0x0010, 0xF000]]);
    assert_eq!(0x1_1234, ppu.bg_x[0]);
    assert_eq!(-0x800_0000, ppu.bg_y[0]);
    assert_eq!(0x7FF_FFFF, ppu.bg_x[1]);
    // Bits 12 to 15 of the high register are ignored
    assert_eq!(0x10, ppu.bg_y[1]);
}

#[test]
fn drawable_lines() {
    let mut ppu = Ppu::new();
    assert!(ppu.line_drawable(&regs(0x0003), 3));
    // An object with vertical mosaic on the line needs a mosaic size
    ppu.oam[1] = 0x10;
    assert!(!ppu.line_drawable(&regs(0x0003), 3));
    let mut r = regs(0x0003);
    r.mosaic = 0x1000;
    assert!(ppu.line_drawable(&r, 3));
    // Not on the line, or forced blank: nothing to check
    assert!(ppu.line_drawable(&regs(0x0003), 20));
    assert!(ppu.line_drawable(&regs(0x0083), 3));
    // Text backgrounds scrolled too far for the line
    let mut r = regs(0x1000);
    r.mosaic = 0x1000;
    r.hofs[2] = 0x7FF0;
    assert!(!ppu.line_drawable(&r, 3));
    r.hofs[2] = 0x8000;
    assert!(ppu.line_drawable(&r, 3));
    // Affine reference point out of range
    let mut ppu = Ppu::new();
    ppu.bg_x[1] = 0x4000_0001;
    assert!(ppu.line_drawable(&regs(0x0001), 3));
    assert!(!ppu.line_drawable(&regs(0x0002), 3));
}

#[test]
fn registers_from_the_io_block() {
    let mut mmio = [0u16; 43];
    for (i, m) in mmio.iter_mut().enumerate() {
        *m = 0x100 + i as u16;
    }
    let r = LineRegs::from_mmio(&mmio);
    assert_eq!(0x100, r.dispcnt);
    assert_eq!([0x104, 0x105, 0x106, 0x107], r.bgcnt);
    assert_eq!([0x108, 0x10A, 0x10C, 0x10E], r.hofs);
    assert_eq!([0x109, 0x10B, 0x10D, 0x10F], r.vofs);
    assert_eq!([[0x110, 0x111, 0x112, 0x113], [0x118, 0x119, 0x11A, 0x11B]], r.affine);
    assert_eq!([0x120, 0x121], r.winh);
    assert_eq!([0x122, 0x123], r.winv);
    assert_eq!((0x124, 0x125), (r.winin, r.winout));
    assert_eq!(0x126, r.mosaic);
}

#[test]
fn ppu_sizes() {
    let mut ppu = Ppu::new();
    assert!(ppu.sizes_ok());
    ppu.bg_layers[2].pop();
    assert!(!ppu.sizes_ok());
    let mut ppu = Ppu::new();
    ppu.vram.push(0);
    assert!(!ppu.sizes_ok());
}

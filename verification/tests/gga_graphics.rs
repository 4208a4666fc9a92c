use gamegirl::gga::graphics::{Ppu, PpuEvent, PpuInterrupt};

fn set_palette(ppu: &mut Ppu, addr: usize, hword: u16) {
    ppu.palette[addr] = (hword & 0xFF) as u8;
    ppu.palette[addr + 1] = (hword >> 8) as u8;
}

#[test]
fn colours_from_bgr555() {
    assert_eq!([31, 0, 0, 255], Ppu::hword_to_colour(0x001F));
    assert_eq!([0, 31, 0, 255], Ppu::hword_to_colour(0x03E0));
    assert_eq!([0, 0, 31, 255], Ppu::hword_to_colour(0x7C00));
    assert_eq!([31, 31, 31, 255], Ppu::hword_to_colour(0xFFFF));
}

#[test]
fn palette_lookup() {
    let mut ppu = Ppu::new();
    set_palette(&mut ppu, 4, 0x7C00);
    set_palette(&mut ppu, 0x204, 0x001F);
    assert_eq!([0, 0, 31, 255], ppu.idx_to_palette::<false>(2));
    assert_eq!([31, 0, 0, 255], ppu.idx_to_palette::<true>(2));
    ppu.vram[10] = 0xE0;
    ppu.vram[11] = 0x03;
    assert_eq!([0, 31, 0, 255], ppu.hword_to_colour_vram(10));
}

#[test]
fn vram_mirror() {
    let mut ppu = Ppu::new();
    ppu.vram[0x10000] = 7;
    ppu.vram[0x17FFF] = 9;
    assert_eq!(9, ppu.vram(0x17FFF));
    assert_eq!(7, ppu.vram(0x28000));
}

#[test]
fn window_coordinates() {
    assert_eq!((10, 21), Ppu::window_coords::<240>(0x0A14));
    assert_eq!((10, 240), Ppu::window_coords::<240>(0x0AFF));
    assert_eq!((200, 240), Ppu::window_coords::<240>(0xC80A));
    assert_eq!((0, 160), Ppu::window_coords::<160>(0x00A0));
}

#[test]
fn affine_reference_points() {
    assert_eq!(0x0123_4567, Ppu::get_affine_offs(0x4567, 0x0123));
    assert_eq!(-1, Ppu::get_affine_offs(0xFFFF, 0x0FFF));
    assert_eq!(-0x800_0000, Ppu::get_affine_offs(0, 0x0800));
}

#[test]
fn map_offsets() {
    assert_eq!(0x40 + 2, Ppu::get_map_offset(1, 1, 0));
    assert_eq!(0x800 + 2, Ppu::get_map_offset(33, 0, 1));
    assert_eq!(2, Ppu::get_map_offset(33, 0, 0));
    assert_eq!(0x800 + 0x40, Ppu::get_map_offset(0, 33, 2));
    assert_eq!(0x1800, Ppu::get_map_offset(32, 32, 3));
}

#[test]
fn pixel_adjustment() {
    let mut p = [31, 16, 1, 255];
    Ppu::adjust_pixel(&mut p);
    assert_eq!([255, 132, 8, 255], p);
}

#[test]
fn drawing_pixels() {
    let mut ppu = Ppu::new();
    set_palette(&mut ppu, 2 * 0x13, 0x001F);
    ppu.set_pixel::<false>(5, 2, 1, 3, false, 0);
    assert_eq!(Some([31, 0, 0, 255]), ppu.get_pixel::<false>(5, 2));
    assert_eq!(Some([0, 0, 0, 0]), ppu.get_pixel::<true>(5, 2));
    // transparent and off-screen pixels are not drawn
    ppu.set_pixel::<false>(6, 2, 1, 0, false, 0);
    ppu.set_pixel::<false>(-1, 2, 1, 3, false, 0);
    ppu.set_pixel::<false>(240, 2, 1, 3, false, 0);
    assert_eq!(Some([0, 0, 0, 0]), ppu.get_pixel::<false>(6, 2));
    assert_eq!(None, ppu.get_pixel::<false>(240, 2));
}

#[test]
fn mosaic_repeats_grid_pixel() {
    let mut ppu = Ppu::new();
    set_palette(&mut ppu, 2, 0x7C00);
    set_palette(&mut ppu, 0x202, 0x7C00);
    ppu.set_pixel::<true>(4, 0, 0, 1, true, 0x0400);
    ppu.set_pixel::<true>(6, 0, 0, 9, true, 0x0400);
    assert_eq!(Some([0, 0, 31, 255]), ppu.get_pixel::<true>(6, 0));
    // background mosaic uses the low nibble: 0 means off
    ppu.set_pixel::<false>(6, 0, 0, 1, true, 0x0400);
    assert_eq!(Some([0, 0, 31, 255]), ppu.get_pixel::<false>(6, 0));
}

#[test]
fn windows() {
    let mut ppu = Ppu::new();
    // no window enabled: everything drawable
    ppu.calc_windows(0, 0, 0, [0, 0], [0, 0], 10);
    assert!(ppu.win_masks.iter().all(|r| r.iter().all(|b| *b)));
    // window 0 from x 10 to 20, lines 0 to 50: only BG1 inside, only OBJ outside
    ppu.calc_windows(1 << 13, 0b0000_0010, 0b0001_0000, [0x0A13, 0], [0x0031, 0], 10);
    assert!(ppu.win_masks[1][10] && ppu.win_masks[1][19]);
    assert!(!ppu.win_masks[1][9] && !ppu.win_masks[1][20]);
    assert!(!ppu.win_masks[4][15] && ppu.win_masks[4][0]);
    // line outside of the window
    ppu.calc_windows(1 << 13, 0b0000_0010, 0b0001_0000, [0x0A13, 0], [0x0031, 0], 60);
    assert!(!ppu.win_masks[1][15] && ppu.win_masks[4][15]);
    // window 0 has priority over window 1
    ppu.calc_windows(3 << 13, 0x0100, 0, [0x0013, 0x0013], [0x00A0, 0x00A0], 0);
    assert!(!ppu.win_masks[0][5]);
    ppu.calc_windows(1 << 14, 0x0100, 0, [0x0013, 0x0013], [0x00A0, 0x00A0], 0);
    assert!(ppu.win_masks[0][5]);
}

#[test]
fn composing_a_line() {
    let mut ppu = Ppu::new();
    set_palette(&mut ppu, 0, 0x0001);
    set_palette(&mut ppu, 2, 0x001F);
    set_palette(&mut ppu, 0x202, 0x7C00);
    ppu.set_pixel::<false>(0, 1, 0, 1, false, 0);
    ppu.set_pixel::<true>(0, 1, 0, 1, false, 0);
    ppu.set_pixel::<false>(1, 3, 0, 1, false, 0);
    ppu.set_pixel::<true>(2, 2, 0, 1, false, 0);
    ppu.set_pixel::<false>(2, 1, 0, 1, false, 0);
    ppu.finish_line(3);
    let row = &ppu.pixels[3 * 240..4 * 240];
    assert_eq!([0, 0, 255, 255], row[0]);
    assert_eq!([255, 0, 0, 255], row[1]);
    assert_eq!([255, 0, 0, 255], row[2]);
    assert_eq!([8, 0, 0, 255], row[3]);
    assert_eq!(Some([0, 0, 0, 0]), ppu.get_pixel::<false>(1, 3));
    assert_eq!([0, 0, 0, 255], ppu.pixels[2 * 240]);
}

#[test]
fn scanline_timing() {
    let s = Ppu::handle_event(PpuEvent::HblankStart, 5, 1 << 4);
    assert!(s.render_line && s.hblank_dma);
    assert_eq!(Some(PpuInterrupt::HBlank), s.irq);
    assert_eq!((PpuEvent::SetHblank, 46), (s.next, s.cycles));
    let s = Ppu::handle_event(PpuEvent::SetHblank, 5, 0);
    assert_eq!(2, s.dispstat);
    assert_eq!((PpuEvent::HblankEnd, 226), (s.next, s.cycles));
    let s = Ppu::handle_event(PpuEvent::HblankEnd, 5, 2);
    assert_eq!(6, s.vcount);
    assert_eq!(0, s.dispstat);
    assert_eq!((PpuEvent::HblankStart, 960), (s.next, s.cycles));
}

#[test]
fn vblank_and_frame_end() {
    let s = Ppu::handle_event(PpuEvent::HblankEnd, 159, 1 << 3);
    assert_eq!(160, s.vcount);
    assert!(s.vblank);
    assert_eq!(Some(PpuInterrupt::VBlank), s.irq);
    assert_eq!((1 << 3) | 1, s.dispstat);
    let s = Ppu::handle_event(PpuEvent::HblankEnd, 226, 1);
    assert_eq!(227, s.vcount);
    assert_eq!(0, s.dispstat);
    let s = Ppu::handle_event(PpuEvent::HblankEnd, 227, 0);
    assert_eq!(0, s.vcount);
    assert!(s.frame_finished);
}

#[test]
fn vcount_match() {
    let s = Ppu::handle_event(PpuEvent::HblankEnd, 9, (10 << 8) | (1 << 5));
    assert_eq!(Some(PpuInterrupt::VCounter), s.irq);
    assert_eq!((10 << 8) | (1 << 5) | (1 << 2), s.dispstat);
    let s = Ppu::handle_event(PpuEvent::HblankEnd, 10, s.dispstat);
    assert_eq!((10 << 8) | (1 << 5), s.dispstat);
    assert_eq!(None, s.irq);
}

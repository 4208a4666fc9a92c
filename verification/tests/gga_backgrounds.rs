use gamegirl::gga::graphics::Ppu;

fn set_colour(ppu: &mut Ppu, addr: usize, hword: u16) {
    ppu.palette[addr] = (hword & 0xFF) as u8;
    ppu.palette[addr + 1] = (hword >> 8) as u8;
}

fn text_ppu() -> Ppu {
    let mut ppu = Ppu::new();
    // Map entry of the first tile: tile 2, palette 3
    ppu.vram[0x800] = 2;
    ppu.vram[0x801] = 0x30;
    // Line 3 of 4-bit tile 2: colour indices 4, 5
    ppu.vram[76] = 0x54;
    // Line 3 of 8-bit tile 2: colour index 9
    ppu.vram[152] = 9;
    set_colour(&mut ppu, 104, 0x001F);
    set_colour(&mut ppu, 106, 0x03E0);
    set_colour(&mut ppu, 18, 0x7C00);
    ppu
}

#[test]
fn text_backgrounds_draw_their_tiles() {
    let mut ppu = text_ppu();
    ppu.render_bg_text::<0>(0x0100, 0x0101, 0, 0, 0, 3);
    assert_eq!([31, 0, 0, 255], ppu.bg_layers[1][0]);
    assert_eq!([0, 31, 0, 255], ppu.bg_layers[1][1]);
    assert_eq!([0, 0, 0, 0], ppu.bg_layers[1][2]);
    // Disabled in DISPCNT
    let mut ppu = text_ppu();
    ppu.render_bg_text::<0>(0x0200, 0x0101, 0, 0, 0, 3);
    assert_eq!([0, 0, 0, 0], ppu.bg_layers[1][0]);
}

#[test]
fn text_backgrounds_flip_and_use_8bit_tiles() {
    let mut ppu = text_ppu();
    ppu.vram[0x801] = 0x34;
    ppu.render_bg_text::<0>(0x0100, 0x0101, 0, 0, 0, 3);
    assert_eq!([31, 0, 0, 255], ppu.bg_layers[1][7]);
    assert_eq!([0, 31, 0, 255], ppu.bg_layers[1][6]);
    let mut ppu = text_ppu();
    ppu.render_bg_text::<1>(0x0200, 0x0181, 0, 0, 0, 3);
    assert_eq!([0, 0, 31, 255], ppu.bg_layers[1][0]);
    // Scrolled down by 8 lines: line 3 shows map row 1, which is empty
    let mut ppu = text_ppu();
    ppu.render_bg_text::<0>(0x0100, 0x0101, 0, 8, 0, 3);
    assert_eq!([0, 0, 0, 0], ppu.bg_layers[1][0]);
}

#[test]
fn affine_backgrounds_follow_their_parameters() {
    let mut ppu = Ppu::new();
    ppu.vram[0] = 1;
    ppu.vram[88] = 5;
    set_colour(&mut ppu, 10, 0x001F);
    ppu.bg_y[0] = 3 * 256;
    ppu.render_bg_affine::<2>(0x0400, 0x0000, [0x0100, 0, 0, 0x0100], 0);
    assert_eq!([31, 0, 0, 255], ppu.bg_layers[0][0]);
    assert_eq!([0, 0, 0, 0], ppu.bg_layers[0][1]);
    assert_eq!(0, ppu.bg_x[0]);
    assert_eq!(4 * 256, ppu.bg_y[0]);
}

#[test]
fn affine_backgrounds_wrap_with_overflow() {
    let mut ppu = Ppu::new();
    ppu.vram[14] = 1;
    ppu.vram[94] = 7;
    set_colour(&mut ppu, 14, 0x03E0);
    ppu.bg_x[0] = -10 * 256;
    ppu.bg_y[0] = 3 * 256;
    ppu.render_bg_affine::<2>(0x0400, 0x0000, [0x0100, 0, 0, 0x0100], 0);
    assert_eq!([0, 0, 0, 0], ppu.bg_layers[0][0]);
    ppu.bg_x[0] = -10 * 256;
    ppu.bg_y[0] = 3 * 256;
    ppu.render_bg_affine::<2>(0x0400, 0x2000, [0x0100, 0, 0, 0x0100], 0);
    assert_eq!([0, 31, 0, 255], ppu.bg_layers[0][0]);
}

use gamegirl::gga::graphics::Ppu;
use gamegirl::gga::objects::Object;

fn obj(x: u16, y: u8, attr0: u8, attr1: u8) -> Object {
    Object { x, y, attr0, attr1, attr2: 0 }
}

#[test]
fn object_sizes_and_validity() {
    assert_eq!((8, 8), obj(0, 0, 0, 0).size());
    assert_eq!((32, 16), obj(0, 0, 0x40, 0x80).size());
    assert_eq!((8, 32), obj(0, 0, 0x80, 0x40).size());
    assert_eq!((0, 0), obj(0, 0, 0xC0, 0).size());
    assert!(obj(0, 0, 0, 0).valid());
    assert!(!obj(0, 0, 0x18, 0).valid());
    assert!(!obj(0, 0, 0xC0, 0).valid());
}

#[test]
fn object_lines() {
    let o = obj(0, 5, 0, 0);
    assert!(o.draw_on(10, 8));
    assert!(!o.draw_on(13, 8));
    let wrapped = obj(0, 250, 0, 0);
    assert!(!wrapped.draw_on(3, 8));
    assert!(wrapped.draw_on(3, 16));
    assert_eq!(5, o.y_on(10, 0));
    // Vertical flip
    assert_eq!(2, obj(0, 5, 0, 0x20).y_on(10, 0));
    // Mosaic of 4 lines
    assert_eq!(1, obj(0, 5, 0x10, 0).y_on(10, 0x4000));
}

#[test]
fn object_x_is_signed() {
    assert_eq!((10, 1), obj(10, 0, 0, 0).signed_x::<true>());
    assert_eq!((-16, 1), obj(0x1F0, 0, 0, 0).signed_x::<true>());
    assert_eq!((-9, -1), obj(0x1F0, 0, 0, 0x10).signed_x::<true>());
    assert_eq!((-16, 1), obj(0x1F0, 0, 0, 0x10).signed_x::<false>());
}

#[test]
fn objects_from_oam() {
    let mut ppu = Ppu::new();
    let bytes = [20u8, 0x40, 0x34, 0x81, 0x05, 0x12];
    for (i, b) in bytes.iter().enumerate() {
        ppu.oam[8 + i] = *b;
    }
    let o = ppu.read_object(1);
    assert_eq!(Object { x: 0x134, y: 20, attr0: 0x40, attr1: 0x81, attr2: 0x1205 }, o);
    ppu.oam[6] = 0x00;
    ppu.oam[7] = 0x01;
    ppu.oam[14] = 0xFF;
    ppu.oam[15] = 0xFF;
    ppu.oam[30] = 0x00;
    ppu.oam[31] = 0x80;
    assert_eq!([256, -1, 0, -32768], ppu.get_rotscal(0));
}

#[test]
fn affine_object_pixels() {
    let mut ppu = Ppu::new();
    ppu.vram[0x10059] = 0x77;
    assert_eq!(0x77, ppu.get_affine_pixel(0, (16, 16), 9, 3, false, true));
    ppu.vram[0x10445] = 0xA5;
    assert_eq!(0xA, ppu.get_affine_pixel(2, (16, 16), 3, 9, true, false));
    assert_eq!(0x5, ppu.get_affine_pixel(2, (16, 16), 2, 9, true, false));
    // Past the end of VRAM, the last 32KB repeat.
    ppu.vram[7136] = 0x42;
    assert_eq!(0x42, ppu.get_affine_pixel(1023, (8, 64), 0, 56, true, true));
}

#[test]
fn bitmap_modes() {
    let mut ppu = Ppu::new();
    // Mode 3
    ppu.vram[(5 * 240 + 2) * 2] = 0x1F;
    ppu.bitmap_mode3(0, 5);
    assert_eq!([0, 0, 0, 0], ppu.bg_layers[0][2]);
    ppu.bitmap_mode3(0x400, 5);
    assert_eq!([31, 0, 0, 255], ppu.bg_layers[0][2]);
    // Mode 4, second frame
    let mut ppu = Ppu::new();
    ppu.vram[0xA000 + 5 * 240 + 3] = 7;
    ppu.palette[14] = 0xE0;
    ppu.palette[15] = 0x03;
    ppu.bitmap_mode4(0x410, 5);
    assert_eq!([0, 31, 0, 255], ppu.bg_layers[0][3]);
    assert_eq!([0, 0, 0, 0], ppu.bg_layers[0][4]);
    // Mode 5
    let mut ppu = Ppu::new();
    ppu.vram[(2 * 160 + 1) * 2 + 1] = 0x7C;
    ppu.bitmap_mode5(0x400, 200);
    assert_eq!([0, 0, 0, 0], ppu.bg_layers[0][1]);
    ppu.bitmap_mode5(0x400, 2);
    assert_eq!([0, 0, 31, 255], ppu.bg_layers[0][1]);
    assert_eq!([0, 0, 0, 0], ppu.bg_layers[0][200]);
    assert_eq!(0, Ppu::bitmap_start_addr(0));
    assert_eq!(0xA000, Ppu::bitmap_start_addr(0x10));
}

fn obj_ppu(attr0: u8, attr1: u8) -> Ppu {
    let mut ppu = Ppu::new();
    let bytes = [10u8, attr0, 20, attr1, 0x01, 0x20];
    for (i, b) in bytes.iter().enumerate() {
        ppu.oam[i] = *b;
    }
    // Line 2 of tile 1: colour indices 1, 2
    ppu.vram[0x10028] = 0x21;
    // Object palette 2: index 1 red, index 2 blue
    ppu.palette[0x242] = 0x1F;
    ppu.palette[0x244] = 0x00;
    ppu.palette[0x245] = 0x7C;
    ppu
}

#[test]
fn regular_objects_draw_into_their_layer() {
    let mut ppu = obj_ppu(0x00, 0x00);
    ppu.render_objs(0x1040, 0, 0, 12);
    assert_eq!([31, 0, 0, 255], ppu.obj_layers[0][20]);
    assert_eq!([0, 0, 31, 255], ppu.obj_layers[0][21]);
    assert_eq!([0, 0, 0, 0], ppu.obj_layers[0][22]);
    // Not on the line
    let mut ppu = obj_ppu(0x00, 0x00);
    ppu.render_objs(0x1040, 0, 0, 30);
    assert_eq!([0, 0, 0, 0], ppu.obj_layers[0][20]);
    // Objects disabled in DISPCNT
    let mut ppu = obj_ppu(0x00, 0x00);
    ppu.render_objs(0x0040, 0, 0, 12);
    assert_eq!([0, 0, 0, 0], ppu.obj_layers[0][20]);
}

#[test]
fn flipped_and_disabled_objects() {
    let mut ppu = obj_ppu(0x00, 0x10);
    ppu.render_objs(0x1040, 0, 0, 12);
    assert_eq!([31, 0, 0, 255], ppu.obj_layers[0][27]);
    assert_eq!([0, 0, 31, 255], ppu.obj_layers[0][26]);
    assert_eq!([0, 0, 0, 0], ppu.obj_layers[0][20]);
    let mut ppu = obj_ppu(0x02, 0x00);
    ppu.render_objs(0x1040, 0, 0, 12);
    assert_eq!([0, 0, 0, 0], ppu.obj_layers[0][20]);
}

#[test]
fn window_objects_mark_the_window() {
    let mut ppu = obj_ppu(0x08, 0x00);
    // The OBJ window takes its pixels from the first line of the first tile.
    ppu.vram[0x10020] = 0x21;
    ppu.render_objs(0x9040, 0, 0x0100, 12);
    assert!(ppu.win_masks[0][20]);
    assert!(!ppu.win_masks[1][20]);
    assert!(!ppu.win_masks[4][20]);
    assert!(ppu.win_masks[1][19]);
    assert_eq!([0, 0, 0, 0], ppu.obj_layers[0][20]);
}

#[test]
fn affine_objects_transform_their_texture() {
    let mut ppu = obj_ppu(0x01, 0x00);
    ppu.oam[7] = 0x01;
    ppu.oam[31] = 0x01;
    ppu.render_objs(0x1040, 0, 0, 12);
    assert_eq!([31, 0, 0, 255], ppu.obj_layers[0][20]);
    assert_eq!([0, 0, 31, 255], ppu.obj_layers[0][21]);
    // Mirrored horizontally by PA = -1.0
    let mut ppu = obj_ppu(0x01, 0x00);
    ppu.oam[6] = 0x00;
    ppu.oam[7] = 0xFF;
    ppu.oam[31] = 0x01;
    ppu.render_objs(0x1040, 0, 0, 12);
    assert_eq!([0, 0, 31, 255], ppu.obj_layers[0][27]);
    assert_eq!([0, 0, 0, 0], ppu.obj_layers[0][26]);
    assert_eq!([0, 0, 0, 0], ppu.obj_layers[0][20]);
}

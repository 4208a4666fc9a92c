use gamegirl::common::Button;
use gamegirl::ggc::cgb::{Cgb, PpuKind, BCPD, BCPS, OCPD, OCPS, OPRI};
use gamegirl::ggc::envelope::EnvelopGenerator;
use gamegirl::ggc::joypad::Joypad;
use gamegirl::ggc::wave_channel::WaveChannel;

#[test]
fn joypad_reads_selected_row() {
    let mut j = Joypad::new();
    assert_eq!(0xDF, j.read(0x10));
    assert_eq!(0xEF, j.read(0x20));
    assert_eq!(0xCF, j.read(0x30));
    assert_eq!(0xCF, j.read(0x00));
    j.set(Button::A, true, 0x30);
    j.set(Button::Down, true, 0x30);
    assert_eq!(0xDE, j.read(0x10));
    assert_eq!(0xE7, j.read(0x20));
}

#[test]
fn joypad_interrupt_only_for_selected_row() {
    let mut j = Joypad::new();
    assert!(!j.set(Button::Start, true, 0x20));
    assert!(j.set(Button::B, true, 0x10));
    assert!(!j.set(Button::R, true, 0x10));
    assert!(!j.set(Button::L, true, 0x10));
    assert!(j.key_states[1] && j.key_states[3]);
}

#[test]
fn envelope_register_round_trip() {
    let mut e = EnvelopGenerator::default();
    for data in 0..=255u8 {
        e.write_envelope_register(data);
        assert_eq!(data, e.read_envelope_register());
    }
}

#[test]
fn envelope_register_survives_ticks_and_triggers() {
    let mut e = EnvelopGenerator::default();
    e.write_envelope_register(0x9B);
    for i in 0..40 {
        if i % 7 == 0 {
            e.trigger();
        }
        let before = e.current_volume();
        e.clock();
        assert!(e.current_volume() == before || e.current_volume() == before + 1);
        assert!(e.current_volume() <= 15);
        assert_eq!(0x9B, e.read_envelope_register());
    }
}

#[test]
fn envelope_steps_down_to_silence() {
    let mut e = EnvelopGenerator::default();
    e.write_envelope_register(0x21);
    e.trigger();
    assert_eq!(2, e.current_volume());
    e.clock();
    assert_eq!(1, e.current_volume());
    e.clock();
    assert_eq!(0, e.current_volume());
    assert!(!e.envelope_can_run);
    e.clock();
    assert_eq!(0, e.current_volume());
}

#[test]
fn envelope_steps_up_with_period() {
    let mut e = EnvelopGenerator::default();
    e.write_envelope_register(0xEA);
    e.trigger();
    assert_eq!(14, e.current_volume());
    e.clock();
    assert_eq!(14, e.current_volume());
    e.clock();
    assert_eq!(15, e.current_volume());
    assert!(!e.envelope_can_run);
}

#[test]
fn envelope_period_zero_does_not_step() {
    let mut e = EnvelopGenerator::default();
    e.write_envelope_register(0x50);
    e.trigger();
    e.clock();
    assert_eq!(5, e.current_volume());
    assert_eq!(8, e.counter);
}

#[test]
fn wave_volume_codes() {
    let mut w = WaveChannel::new(false);
    w.write_volume(0);
    assert_eq!(4, w.volume_shift);
    w.write_volume(1);
    assert_eq!(0, w.volume_shift);
    w.write_volume(2);
    assert_eq!(1, w.volume_shift);
    w.write_volume(0x63);
    assert_eq!(2, w.volume_shift);
    assert_eq!(0x63, w.read_volume());
}

#[test]
fn wave_ram_round_trip_while_stopped() {
    let mut w = WaveChannel::new(true);
    for offset in 0..16u8 {
        w.write_buffer(offset, offset * 17);
    }
    for offset in 0..16u8 {
        assert_eq!(offset * 17, w.read_buffer(offset));
    }
}

#[test]
fn wave_ram_access_while_playing_hits_current_byte() {
    let mut w = WaveChannel::new(true);
    w.write_buffer(3, 0xAB);
    w.set_enable(true);
    w.set_dac_enable(true);
    assert!(w.enabled() && w.dac_enabled());
    for _ in 0..6 {
        w.clock();
    }
    assert_eq!(0xAB, w.read_buffer(0));
    w.write_buffer(9, 0x12);
    assert_eq!(0x12, w.read_buffer(15));
}

#[test]
fn dmg_wave_ram_is_locked_while_playing() {
    let mut w = WaveChannel::new(false);
    w.write_buffer(3, 0xAB);
    assert_eq!(0xAB, w.read_buffer(3));
    w.set_enable(true);
    w.set_dac_enable(true);
    // Reads give 0xFF, writes are dropped
    assert_eq!(0xFF, w.read_buffer(0));
    w.write_buffer(3, 0x12);
    w.set_enable(false);
    assert_eq!(0xAB, w.read_buffer(3));
    // With only the DAC on, it is accessible
    w.write_buffer(4, 0x34);
    assert_eq!(0x34, w.read_buffer(4));
}

#[test]
fn wave_timing_and_output() {
    let mut w = WaveChannel::new(false);
    w.write_frequency(0x700);
    assert_eq!(0x700, w.frequency());
    assert_eq!((0x7FF - 0x700 + 3) * 4, w.trigger());
    assert_eq!((0x7FF - 0x700) * 4, w.clock());
    w.write_buffer(0, 0xC5);
    w.write_volume(1);
    w.reset_buffer_index();
    assert_eq!(0xC, w.output());
    w.clock();
    assert_eq!(0x5, w.output());
    w.write_volume(2);
    assert_eq!(0x2, w.output());
    assert!(!w.muted());
}

#[test]
fn cgb_palette_index_register() {
    let mut c = Cgb::new(false);
    c.write_high(BCPS, 0x85);
    assert_eq!(5, c.bg_palette_idx);
    assert!(c.bg_palette_inc);
    assert_eq!(0, c.read_high(BCPS));
    c.write_high(OCPS, 0xC1);
    assert_eq!(1, c.obj_palette_idx);
    assert_eq!(0xFF, c.read_high(0xFF00));
}

#[test]
fn cgb_palette_data_round_trip_and_colour() {
    let mut c = Cgb::new(false);
    c.write_high(BCPS, 0x80);
    c.write_high(BCPD, 0xFF);
    c.write_high(BCPD, 0x7F);
    assert_eq!(2, c.bg_palette_idx);
    assert_eq!([255, 255, 255, 255], c.bg_palettes[0].colour);
    c.write_high(BCPS, 0x00);
    assert_eq!(0xFF, c.read_high(BCPD));
    c.write_high(BCPS, 0x01);
    assert_eq!(0x7F, c.read_high(BCPD));
    c.write_high(BCPD, 0x00);
    assert_eq!(1, c.bg_palette_idx);
    assert_eq!([255, 57, 0, 255], c.bg_palettes[0].colour);
}

#[test]
fn cgb_colour_correction() {
    let mut c = Cgb::new(true);
    c.write_high(OCPS, 0x80);
    c.write_high(OCPD, 0x1F);
    c.write_high(OCPD, 0x00);
    assert_eq!([201, 0, 46, 255], c.obj_palettes[0].colour);
    assert_eq!(0x1F, {
        c.write_high(OCPS, 0x00);
        c.read_high(OCPD)
    });
}

#[test]
fn cgb_object_priority() {
    let mut c = Cgb::new(false);
    c.write_high(OPRI, 1);
    assert!(c.dmg_used_x_obj_cords.is_some());
    c.write_high(OPRI, 0);
    assert!(c.dmg_used_x_obj_cords.is_none());
}

#[test]
fn palette_registers_by_ppu_kind() {
    let mut dmg = PpuKind::Dmg;
    dmg.write_high(BCPS, 0x85);
    assert!(matches!(dmg, PpuKind::Dmg));
    assert_eq!(0xFF, dmg.read_high(BCPS));
    assert_eq!(0xFF, dmg.read_high(OCPD));
    let mut cgb = PpuKind::Cgb(Cgb::new(false));
    cgb.write_high(OCPS, 0x80);
    cgb.write_high(OCPD, 0x1F);
    cgb.write_high(BCPS, 0x03);
    match &cgb {
        PpuKind::Cgb(c) => {
            assert_eq!(3, c.bg_palette_idx);
            assert_eq!(1, c.obj_palette_idx);
            assert_eq!(0x1F, c.obj_palettes[0].raw_low);
        }
        PpuKind::Dmg => panic!("kind changed"),
    }
    cgb.write_high(OCPS, 0x00);
    assert_eq!(0x1F, cgb.read_high(OCPD));
}

#[test]
fn cgb_background_line_from_the_map() {
    let mut vram = [0u8; 0x4000];
    vram[0x1800] = 1;
    vram[0x3800] = 0x02;
    vram[16] = 0x80;
    vram[17] = 0x80;
    let mut c = Cgb::new(false);
    c.bg_palettes[11].colour = [1, 2, 3, 255];
    c.bg_palettes[8].colour = [9, 9, 9, 255];
    let mut px = [[0u8; 4]; 160];
    let mut occupied = [false; 160];
    c.cgb_render_bg_or_window(&vram, &mut px, &mut occupied, true, false, 0, 0, 8, 0x1800, 0, false);
    assert_eq!([1, 2, 3, 255], px[0]);
    assert_eq!([9, 9, 9, 255], px[1]);
    assert!(occupied[0] && !occupied[1]);
    assert!(!c.unavailable_pixels[0]);
    assert_eq!([0, 0, 0, 0], px[8]);
    // Flipped horizontally, with priority over objects
    vram[0x3800] = 0xA2;
    let mut px = [[0u8; 4]; 160];
    c.cgb_render_bg_or_window(&vram, &mut px, &mut occupied, true, false, 0, 0, 8, 0x1800, 0, false);
    assert_eq!([1, 2, 3, 255], px[7]);
    assert!(c.unavailable_pixels[7] && !c.unavailable_pixels[6]);
}

use gamegirl::gga::dma::TransferSource;
use gamegirl::nds::dma::{Dmas, Reason, Transfer};
use gamegirl::nds::scheduling::NdsEvent;

#[test]
fn nds_event_default() {
    assert_eq!(NdsEvent::PauseEmulation, NdsEvent::default());
}

#[test]
fn nds_reload_masks_differ_per_cpu() {
    let mut d7 = Dmas::default();
    d7.ctrl_write(false, 0, 0, 0x8000, 0xFFFF_FFFF, 0xFFFF_FFFF);
    assert_eq!(0x7FF_FFFF, d7.src[0]);
    assert_eq!(0x7FF_FFFF, d7.dst[0]);
    let mut d9 = Dmas::default();
    let stored = d9.ctrl_write(true, 0, 0, 0x8FFF, 0xFFFF_FFFF, 0xFFFF_FFFF);
    assert_eq!(0x87E0, stored);
    assert_eq!(0xFFF_FFFF, d9.src[0]);
    assert_eq!(0xFFF_FFFF, d9.dst[0]);
}

#[test]
fn nds7_timings() {
    let mut d = Dmas::default();
    assert!(d.step_dma(false, 1, 0x8000, Reason::CtrlWrite, 0, 1, 0).is_some());
    assert!(d.step_dma(false, 1, 0x9000, Reason::VBlank, 0, 1, 0).is_some());
    assert!(d.step_dma(false, 1, 0xA000, Reason::CartridgeReady, 0, 1, 0).is_some());
    assert!(d.step_dma(false, 1, 0xB000, Reason::HBlank, 0, 1, 0).is_none());
    assert!(d.step_dma(false, 1, 0x1000, Reason::VBlank, 0, 1, 0).is_none());
}

#[test]
fn nds9_timings_and_counts() {
    let mut d = Dmas::default();
    assert!(d.step_dma(true, 0, 0x9000, Reason::HBlank, 100, 1, 0).is_some());
    assert!(d.step_dma(true, 0, 0x9000, Reason::HBlank, 160, 1, 0).is_none());
    assert!(d.step_dma(true, 0, 0x9800, Reason::HBlank, 0, 1, 0).is_some());
    assert!(d.step_dma(true, 0, 0x9800, Reason::HBlank, 1, 1, 0).is_none());
    assert!(d.step_dma(true, 0, 0xA800, Reason::CartridgeReady, 0, 1, 0).is_some());
    let t = d.step_dma(true, 2, 0x8400, Reason::CtrlWrite, 0, 0, 0).unwrap();
    assert_eq!(Transfer { idx: 2, count: 0x20_0000, src_mod: 4, dst_mod: 4, word: true }, t);
    let t = d.step_dma(false, 3, 0x8000, Reason::CtrlWrite, 0, 0, 0).unwrap();
    assert_eq!(0x1_0000, t.count);
    let t = d.step_dma(false, 2, 0x80E0, Reason::CtrlWrite, 0, 0, 0x1234_5678).unwrap();
    assert_eq!(0x4000, t.count);
    assert_eq!(-2, t.src_mod);
    assert_eq!(2, t.dst_mod);
    assert_eq!(0x0234_5678, d.dst[2]);
}

#[test]
fn nds_finish() {
    assert_eq!((Some(0x0000), None), Dmas::finish_dma(1, 0x8000));
    assert_eq!((None, Some(9)), Dmas::finish_dma(1, 0xD200));
    assert_eq!((Some(0x4200), Some(11)), Dmas::finish_dma(3, 0xC200));
}

#[test]
fn nds_transfer_sources() {
    let mut d = Dmas::default();
    d.dst[0] = 0x100;
    assert_eq!(TransferSource::Skip, d.begin_transfer(0, true));
    d.dst[0] = 0x0200_0003;
    d.src[0] = 0x0300_0003;
    assert_eq!(TransferSource::Memory, d.begin_transfer(0, true));
    assert_eq!(0x0300_0000, d.src[0]);
    assert_eq!(0x0200_0000, d.dst[0]);
    d.src[1] = 0x10;
    d.dst[1] = 0x0200_0003;
    assert_eq!(TransferSource::Cache, d.begin_transfer(1, false));
    assert_eq!(0x0200_0003, d.dst[1]);
    d.fill_cache(0xABCD, false);
    assert_eq!(0xABCD_ABCD, d.cache);
    d.fill_cache(0x1234_5678, true);
    assert_eq!(0x1234, d.cache_unit(2, false));
    assert_eq!(0x5678, d.cache_unit(4, false));
    assert_eq!(0x1234_5678, d.cache_unit(4, true));
    assert_eq!((0x10, 0x0200_0003), d.next_unit(1, -2, 2));
    assert_eq!(0xE, d.src[1]);
}

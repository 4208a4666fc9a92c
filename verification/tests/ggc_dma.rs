use gamegirl::ggc::dma::{oam_dma_source, Hdma};
use gamegirl::ggc::scheduling::GGEvent;
use gamegirl::scheduler::Scheduler;

#[test]
fn oam_dma_sources() {
    assert_eq!(0xC100, oam_dma_source(0xC1));
    assert_eq!(0xDF00, oam_dma_source(0xDF));
    assert_eq!(0xC000, oam_dma_source(0xE0));
    assert_eq!(0xDE00, oam_dma_source(0xFE));
}

#[test]
fn gdma_starts_at_once() {
    let mut h = Hdma::default();
    let mut s: Scheduler<GGEvent> = Scheduler::new();
    h.write_start(&mut s, 0x03, 0x12, 0xC3, 0x4F, 0xFF, true);
    assert_eq!(0xC310, h.source);
    assert_eq!(0x9F40, h.dest);
    assert_eq!(3, h.transfer_left);
    assert!(!h.hblank_transferring);
    s.advance(2);
    assert_eq!(GGEvent::GdmaTransfer, s.get_next_pending().unwrap().kind);
}

#[test]
fn hdma_waits_for_ppu_unless_lcd_off() {
    let mut h = Hdma::default();
    let mut s: Scheduler<GGEvent> = Scheduler::new();
    h.write_start(&mut s, 0x81, 0x00, 0xC0, 0x00, 0x00, true);
    assert!(h.hblank_transferring);
    assert_eq!(1, h.transfer_left);
    s.advance(100);
    s.schedule(GGEvent::PauseEmulation, 0);
    assert_eq!(GGEvent::PauseEmulation, s.get_next_pending().unwrap().kind);

    let mut h = Hdma::default();
    let mut s: Scheduler<GGEvent> = Scheduler::new();
    h.write_start(&mut s, 0x81, 0x00, 0xC0, 0x00, 0x00, false);
    s.advance(2);
    assert_eq!(GGEvent::HdmaTransferStep, s.get_next_pending().unwrap().kind);
}

#[test]
fn hdma_can_be_stopped() {
    let mut h = Hdma::default();
    let mut s: Scheduler<GGEvent> = Scheduler::new();
    h.write_start(&mut s, 0x85, 0x00, 0xC0, 0x00, 0x00, false);
    h.write_start(&mut s, 0x00, 0x00, 0x00, 0x00, 0x00, false);
    assert!(!h.hblank_transferring);
    assert_eq!(0x85, h.transfer_left);
    s.advance(10);
    s.schedule(GGEvent::PauseEmulation, 0);
    assert_eq!(GGEvent::PauseEmulation, s.get_next_pending().unwrap().kind);
}

#[test]
fn blocks_advance_and_finish() {
    let mut h = Hdma::default();
    let mut s: Scheduler<GGEvent> = Scheduler::new();
    h.write_start(&mut s, 0x81, 0x00, 0xC0, 0x00, 0x01, true);
    assert_eq!((0xC000, 0x8100), h.advance_transfer());
    h.hdma_block_done(&mut s, true);
    assert!(h.hblank_transferring);
    assert_eq!((0xC010, 0x8110), h.advance_transfer());
    h.hdma_block_done(&mut s, true);
    assert!(!h.hblank_transferring);
    assert_eq!(0xFF, h.transfer_left);
    assert_eq!(0xC020, h.source);
}

use gamegirl::gga::dma::{DmaStep, Dmas, Reason, Transfer, TransferSource};

fn idle_dmas() -> Dmas {
    let mut d = Dmas::default();
    d.running = 99;
    d
}

#[test]
fn base_addresses_and_steps() {
    assert_eq!(0xB0, Dmas::base_addr(0));
    assert_eq!(0xD4, Dmas::base_addr(3));
    assert_eq!(2, Dmas::get_step(0));
    assert_eq!(-2, Dmas::get_step(1));
    assert_eq!(0, Dmas::get_step(2));
    assert_eq!(0, Dmas::get_step(3));
}

#[test]
fn enabling_reloads_masked_addresses() {
    let mut d = idle_dmas();
    let stored = d.ctrl_write(0, 0, 0x8FFF, 0xFFFF_FFFF, 0xFFFF_FFFF);
    assert_eq!(0x87E0, stored);
    assert_eq!(0x7FF_FFFF, d.src[0]);
    assert_eq!(0x7FF_FFFF, d.dst[0]);
    let stored = d.ctrl_write(3, 0, 0x8FFF, 0xFFFF_FFFF, 0xFFFF_FFFF);
    assert_eq!(0x8FE0, stored);
    assert_eq!(0xFFF_FFFF, d.src[3]);
    assert_eq!(0xFFF_FFFF, d.dst[3]);
    // Already on: no reload
    d.ctrl_write(3, 0x8000, 0x8000, 0, 0);
    assert_eq!(0xFFF_FFFF, d.src[3]);
}

#[test]
fn immediate_transfer_runs_on_ctrl_write_only() {
    let mut d = idle_dmas();
    d.src[1] = 0x0200_0000;
    assert_eq!(DmaStep::Idle, d.step_dma(1, 0x8000, Reason::VBlank, 0, 0, 0));
    assert_eq!(DmaStep::Idle, d.step_dma(1, 0x0000, Reason::CtrlWrite, 0, 0, 0));
    let step = d.step_dma(1, 0x8000, Reason::CtrlWrite, 0, 16, 0);
    assert_eq!(
        DmaStep::Run(Transfer {
            idx: 1,
            count: 16,
            src_mod: 2,
            dst_mod: 2,
            word: false,
            eeprom: false,
            video_capture: false,
            prev_running: 99,
        }),
        step
    );
    assert_eq!(1, d.running);
}

#[test]
fn word_transfers_double_the_steps_and_count_zero_is_max() {
    let mut d = idle_dmas();
    d.src[3] = 0x0300_0000;
    // decrement source, fixed destination, word transfer, count 0
    let step = d.step_dma(3, 0x8000 | 0x400 | 0x80 | 0x40, Reason::CtrlWrite, 0, 0, 0);
    match step {
        DmaStep::Run(t) => {
            assert_eq!(0x1_0000, t.count);
            assert_eq!(-4, t.src_mod);
            assert_eq!(0, t.dst_mod);
            assert!(t.word && !t.eeprom);
        }
        _ => panic!("expected a transfer"),
    }
    let mut d = idle_dmas();
    let step = d.step_dma(2, 0x8000, Reason::CtrlWrite, 0, 0, 0);
    assert!(matches!(step, DmaStep::Run(Transfer { count: 0x4000, .. })));
}

#[test]
fn rom_source_always_increments() {
    let mut d = idle_dmas();
    d.src[0] = 0x0800_0000;
    let step = d.step_dma(0, 0x8000 | 0x80, Reason::CtrlWrite, 0, 1, 0);
    assert!(matches!(step, DmaStep::Run(Transfer { src_mod: 2, .. })));
}

#[test]
fn increment_reload_destination() {
    let mut d = idle_dmas();
    d.dst[2] = 5;
    let step = d.step_dma(2, 0x8000 | 0x60, Reason::CtrlWrite, 0, 1, 0xFFFF_FFFF);
    assert!(matches!(step, DmaStep::Run(Transfer { dst_mod: 2, .. })));
    assert_eq!(0x7FF_FFFF, d.dst[2]);
}

#[test]
fn timing_modes() {
    let mut d = idle_dmas();
    assert!(matches!(d.step_dma(0, 0x9000, Reason::VBlank, 0, 1, 0), DmaStep::Run(_)));
    let mut d = idle_dmas();
    assert!(matches!(d.step_dma(0, 0xA000, Reason::HBlank, 100, 1, 0), DmaStep::Run(_)));
    let mut d = idle_dmas();
    assert_eq!(DmaStep::Idle, d.step_dma(0, 0xA000, Reason::HBlank, 160, 1, 0));
    let mut d = idle_dmas();
    let step = d.step_dma(1, 0xB000, Reason::Fifo, 0, 1, 0);
    assert!(matches!(step, DmaStep::Run(Transfer { count: 4, dst_mod: 0, word: true, .. })));
}

#[test]
fn video_capture_on_channel_three() {
    let mut d = idle_dmas();
    assert_eq!(DmaStep::Idle, d.step_dma(3, 0xB000, Reason::HBlank, 1, 1, 0));
    let step = d.step_dma(3, 0xB000, Reason::HBlank, 2, 1, 0);
    let t = match step {
        DmaStep::Run(t) => t,
        _ => panic!("expected a transfer"),
    };
    assert!(t.video_capture && t.eeprom);
    // repeat bit set: stays on until line 161
    let end = d.finish_dma(t, 0xB200, 100);
    assert_eq!(None, end.ctrl);
    d.running = 99;
    let end = d.finish_dma(t, 0xB200, 161);
    assert_eq!(Some(0x3200), end.ctrl);
}

#[test]
fn lower_priority_channel_is_queued_and_runs_next() {
    let mut d = idle_dmas();
    let t = match d.step_dma(1, 0x8000, Reason::CtrlWrite, 0, 1, 0) {
        DmaStep::Run(t) => t,
        _ => panic!("expected a transfer"),
    };
    assert_eq!(DmaStep::Queued, d.step_dma(2, 0x9000, Reason::VBlank, 0, 1, 0));
    assert_eq!(DmaStep::Queued, d.step_dma(1, 0x8000, Reason::CtrlWrite, 0, 1, 0));
    assert_eq!(2, d.queued.len());
    let end = d.finish_dma(t, 0x8000, 0);
    assert_eq!(Some((1, Reason::CtrlWrite)), end.next);
    assert_eq!(Some(0x0000), end.ctrl);
    assert_eq!(None, end.irq);
    assert_eq!(99, d.running);
    assert_eq!(1, d.queued.len());
}

#[test]
fn higher_priority_channel_preempts() {
    let mut d = idle_dmas();
    let outer = match d.step_dma(2, 0x8000, Reason::CtrlWrite, 0, 1, 0) {
        DmaStep::Run(t) => t,
        _ => panic!("expected a transfer"),
    };
    let inner = match d.step_dma(0, 0xC000 | 0x200 | 0x1000, Reason::VBlank, 0, 1, 0) {
        DmaStep::Run(t) => t,
        _ => panic!("expected a transfer"),
    };
    assert_eq!(2, inner.prev_running);
    assert_eq!(0, d.running);
    let end = d.finish_dma(inner, 0xD200, 0);
    assert_eq!(None, end.ctrl);
    assert_eq!(Some(8), end.irq);
    assert_eq!(2, d.running);
    let end = d.finish_dma(outer, 0x8000 | 0x4000, 0);
    assert_eq!(Some(10), end.irq);
    assert_eq!(99, d.running);
    assert!(end.next.is_none());
}

#[test]
fn transfer_addresses_step_and_wrap() {
    let mut d = idle_dmas();
    d.src[1] = 0x0200_0000;
    d.dst[1] = 0;
    assert_eq!((0x0200_0000, 0), d.next_unit(1, 4, -4));
    assert_eq!((0x0200_0004, 0xFFFF_FFFC), d.next_unit(1, 4, -4));
    assert_eq!(0x0200_0008, d.src[1]);
    assert_eq!(0xFFFF_FFF8, d.dst[1]);
}

#[test]
fn gga_transfer_sources_and_cache() {
    let mut d = idle_dmas();
    d.dst[2] = 0x01FF_FFFF;
    assert_eq!(TransferSource::Skip, d.begin_transfer(2, false));
    d.dst[2] = 0x0600_0001;
    d.src[2] = 0x0800_0001;
    assert_eq!(TransferSource::Memory, d.begin_transfer(2, false));
    assert_eq!(0x0800_0000, d.src[2]);
    assert_eq!(0x0600_0000, d.dst[2]);
    d.src[2] = 0x4000;
    assert_eq!(TransferSource::Cache, d.begin_transfer(2, true));
    d.fill_cache(0x00FF, false);
    assert_eq!(0x00FF_00FF, d.cache);
    assert_eq!(0x00FF, d.cache_unit(0x0600_0002, false));
    d.end_transfer(0x0800_1234);
    assert_eq!(0x0800_1234, d.pc_at_last_end);
}

#[test]
fn queue_full_is_reported() {
    let mut d = idle_dmas();
    d.running = 0;
    for _ in 0..3 {
        assert_eq!(Some(DmaStep::Queued), d.try_step_dma(2, 0x8000, Reason::CtrlWrite, 0, 1, 0));
    }
    assert_eq!(3, d.queued.len());
    assert_eq!(None, d.try_step_dma(2, 0x8000, Reason::CtrlWrite, 0, 1, 0));
    assert_eq!(3, d.queued.len());
    // Not triggered: no need for room
    assert_eq!(Some(DmaStep::Idle), d.try_step_dma(2, 0x0000, Reason::CtrlWrite, 0, 1, 0));
}

fn transfer(idx: u16, count: u32, src_mod: i32, dst_mod: i32, word: bool) -> Transfer {
    Transfer { idx, count, src_mod, dst_mod, word, eeprom: false, video_capture: false, prev_running: 99 }
}

#[test]
fn transfer_units_step_through_memory() {
    let mut d = idle_dmas();
    d.src[0] = 0x0200_0001;
    d.dst[0] = 0x0300_0003;
    let (source, units) = d.transfer_units(transfer(0, 3, 4, -4, true));
    assert_eq!(TransferSource::Memory, source);
    assert_eq!(
        vec![(0x0200_0000, 0x0300_0000), (0x0200_0004, 0x02FF_FFFC), (0x0200_0008, 0x02FF_FFF8)],
        units
    );
    assert_eq!(0x0200_000C, d.src[0]);
    assert_eq!(0x02FF_FFF4, d.dst[0]);
    // From BIOS memory: the cache, addresses not aligned
    d.src[1] = 0x0000_0001;
    d.dst[1] = 0x0300_0002;
    let (source, units) = d.transfer_units(transfer(1, 2, 2, 2, false));
    assert_eq!(TransferSource::Cache, source);
    assert_eq!(vec![(1, 0x0300_0002), (3, 0x0300_0004)], units);
    // Into BIOS memory: nothing
    d.dst[2] = 0x100;
    let (source, units) = d.transfer_units(transfer(2, 5, 2, 2, false));
    assert_eq!(TransferSource::Skip, source);
    assert!(units.is_empty());
    assert_eq!(0x100, d.dst[2]);
}

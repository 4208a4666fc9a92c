use gamegirl::gga::timer::Timers;

#[test]
fn starting_a_timer_loads_reload_value() {
    let mut t = Timers::default();
    t.cycle_counters[2] = 5;
    t.hi_write::<2>(0, 0x80, 0x1234);
    assert_eq!(0x1234, t.counters[2]);
    assert_eq!(0, t.cycle_counters[2]);
    t.counters[2] = 7;
    t.hi_write::<2>(0x80, 0x81, 0x1234);
    assert_eq!(7, t.counters[2]);
    t.hi_write::<2>(0x80, 0x00, 0x1234);
    assert_eq!(7, t.counters[2]);
}

#[test]
fn disabled_timers_do_not_count() {
    let mut t = Timers::default();
    assert_eq!(0, t.step(&[0; 4], &[0; 4], 100));
    assert_eq!([0; 4], t.counters);
    assert_eq!([0; 4], t.cycle_counters);
}

#[test]
fn prescalers() {
    let mut t = Timers::default();
    t.step(&[0x80, 0, 0, 0], &[0; 4], 7);
    assert_eq!(7, t.counters[0]);
    assert_eq!(0, t.cycle_counters[0]);
    for (ctrl, div) in [(0x81u16, 64u16), (0x82, 256), (0x83, 1024)] {
        let mut t = Timers::default();
        t.step(&[ctrl, 0, 0, 0], &[0; 4], div * 3 + 1);
        assert_eq!(3, t.counters[0]);
        assert_eq!(1, t.cycle_counters[0]);
        t.step(&[ctrl, 0, 0, 0], &[0; 4], div - 1);
        assert_eq!(4, t.counters[0]);
        assert_eq!(0, t.cycle_counters[0]);
    }
}

#[test]
fn overflow_reloads_and_requests_interrupt() {
    let mut t = Timers::default();
    let control = [0xC0, 0, 0, 0];
    let reload = [0xFFF0, 0, 0, 0];
    t.hi_write::<0>(0, 0xC0, 0xFFF0);
    assert_eq!(0, t.step(&control, &reload, 15));
    assert_eq!(0xFFFF, t.counters[0]);
    assert_eq!(8, t.step(&control, &reload, 1));
    assert_eq!(0xFFF0, t.counters[0]);
}

#[test]
fn overflow_without_irq_enable_is_silent() {
    let mut t = Timers::default();
    t.counters[0] = 0xFFFF;
    assert_eq!(0, t.step(&[0x80, 0, 0, 0], &[0x10, 0, 0, 0], 1));
    assert_eq!(0x10, t.counters[0]);
}

#[test]
fn cascading_timers_count_overflows() {
    let mut t = Timers::default();
    t.counters[0] = 0xFFFE;
    t.counters[1] = 0xFFFF;
    let control = [0x80, 0xC4, 0xC4, 0x00];
    let reload = [0xFFFE, 0x0000, 0x0000, 0];
    let irqs = t.step(&control, &reload, 4);
    // timer 0: FFFE -> FFFF -> (reload) FFFE -> FFFF -> (reload) FFFE: 2 overflows
    assert_eq!(0xFFFE, t.counters[0]);
    // timer 1: FFFF -> (reload) 0 -> 1: 1 overflow
    assert_eq!(1, t.counters[1]);
    // timer 2 counts that overflow
    assert_eq!(1, t.counters[2]);
    assert_eq!(16, irqs);
}

#[test]
fn timer_zero_never_cascades() {
    let mut t = Timers::default();
    t.step(&[0x84, 0, 0, 0], &[0; 4], 5);
    assert_eq!(5, t.counters[0]);
}

#[test]
fn all_timers_can_interrupt_at_once() {
    let mut t = Timers::default();
    t.counters = [0xFFFF; 4];
    let irqs = t.step(&[0xC0; 4], &[0; 4], 1);
    assert_eq!(8 + 16 + 32 + 64, irqs);
    assert_eq!([0; 4], t.counters);
}

use gamegirl::ggc::timer::{Timer, TimerBus, DIV, TAC, TIMA};

fn setup(run: bool, speed: u8) -> TimerBus {
    let mut gg = TimerBus::new();
    Timer::write(&mut gg, TAC, speed | ((run as u8) << 2));
    gg
}

fn for_all_speeds(mut inner: impl FnMut(&mut TimerBus, u8)) {
    for speed in 0..4 {
        let mut gg = setup(true, speed);
        inner(&mut gg, speed);
    }
}

#[test]
fn div_starts_at_0() {
    for_all_speeds(|gg, _| assert_eq!(0, Timer::read(gg, DIV)));
}

#[test]
fn div_inc() {
    for_all_speeds(|gg, _| {
        gg.scheduler.advance(255);
        assert_eq!(0, Timer::read(gg, DIV));
        gg.scheduler.advance(1);
        assert_eq!(1, Timer::read(gg, DIV));
    });
}

#[test]
fn div_reset() {
    for_all_speeds(|gg, _| {
        gg.scheduler.advance(512);
        assert_eq!(2, Timer::read(gg, DIV));
        Timer::write(gg, DIV, 234);
        assert_eq!(0, Timer::read(gg, DIV));

        gg.scheduler.advance(255);
        assert_eq!(0, Timer::read(gg, DIV));
        gg.scheduler.advance(1);
        assert_eq!(1, Timer::read(gg, DIV));
    });
}

#[test]
fn starts_at_0() {
    for_all_speeds(|gg, _| assert_eq!(0, Timer::read(gg, TIMA)));
}

#[test]
fn is_0_before_divider() {
    for_all_speeds(|gg, _| {
        gg.scheduler.advance(gg.timer.counter_divider as u32 - 1);
        assert_eq!(0, Timer::read(gg, TIMA));
    });
}

#[test]
fn is_1_after_divider() {
    for_all_speeds(|gg, _| {
        gg.scheduler.advance(gg.timer.counter_divider as u32);
        assert_eq!(1, Timer::read(gg, TIMA));
    });
}

#[test]
fn is_1_before_divider() {
    for_all_speeds(|gg, _| {
        gg.scheduler
            .advance((gg.timer.counter_divider as u32 * 2) - 1);
        assert_eq!(1, Timer::read(gg, TIMA));
    });
}

#[test]
fn is_2_after_divider() {
    for_all_speeds(|gg, _| {
        gg.scheduler.advance(gg.timer.counter_divider as u32 * 2);
        assert_eq!(2, Timer::read(gg, TIMA));
    });
}

#[test]
fn reschedule() {
    for_all_speeds(|gg, speed| {
        gg.scheduler.advance(gg.timer.counter_divider as u32 * 2);
        assert_eq!(2, Timer::read(gg, TIMA));

        Timer::write(gg, TAC, speed);
        gg.scheduler.advance(gg.timer.counter_divider as u32 * 2);
        assert_eq!(2, Timer::read(gg, TIMA));

        Timer::write(gg, TAC, speed | 4);
        gg.scheduler.advance(gg.timer.counter_divider as u32 * 2);
        assert_eq!(4, Timer::read(gg, TIMA));
    });
}

#[test]
fn tac_reads_with_high_bits_set() {
    let mut gg = setup(true, 2);
    assert_eq!(0xFE, Timer::read(&gg, TAC));
    Timer::write(&mut gg, TAC, 0xF9);
    assert_eq!(0xF9, Timer::read(&gg, TAC));
    assert_eq!(16, gg.timer.counter_divider);
    assert_eq!(3, gg.timer.counter_bit);
}

#[test]
fn unknown_timer_register_reads_ff() {
    let gg = setup(true, 0);
    assert_eq!(0xFF, Timer::read(&gg, 0xFF03));
}

#[test]
fn tima_write_restarts_counting() {
    let mut gg = setup(true, 1);
    gg.scheduler.advance(8);
    Timer::write(&mut gg, TIMA, 0x10);
    assert_eq!(0x10, Timer::read(&gg, TIMA));
    gg.scheduler.advance(16);
    assert_eq!(0x11, Timer::read(&gg, TIMA));
}

#[test]
fn overflow_reloads_and_reschedules() {
    let mut gg = setup(true, 1);
    Timer::write(&mut gg, TIMA, 0xFF);
    assert_eq!(0, gg.intr_flags);
    Timer::on_overflow(&mut gg, 0);
    assert_eq!(4, gg.intr_flags & 4);
    assert_eq!(0, gg.tima);
    assert_eq!(0, Timer::read(&gg, TIMA));
}

use gamegirl::gga::audio::Apu;

#[test]
fn fifo_samples_queue_in_order() {
    let mut apu = Apu::new();
    apu.push_samples::<0>(0x80FF);
    apu.push_sample::<1>(5);
    assert_eq!(vec![-1i8, -128], apu.buffers[0].iter().copied().collect::<Vec<i8>>());
    assert_eq!(vec![5i8], apu.buffers[1].iter().copied().collect::<Vec<i8>>());
}

#[test]
fn timer_overflow_plays_next_and_asks_for_more() {
    let mut apu = Apu::new();
    apu.push_samples::<0>(0x80FF);
    let refill = apu.timer_overflow::<0>([0x0400_00A0, 0x0400_00A4]);
    assert_eq!(-1, apu.current_samples[0]);
    assert_eq!([true, false], refill);
    let refill = apu.timer_overflow::<1>([0x0400_00A0, 0x0400_00A4]);
    assert_eq!(0, apu.current_samples[1]);
    assert_eq!([false, true], refill);
    for _ in 0..10 {
        apu.push_samples::<0>(0x0101);
    }
    let refill = apu.timer_overflow::<0>([0x0400_00A0, 0x0400_00A0]);
    assert_eq!(-128, apu.current_samples[0]);
    assert_eq!([false, false], refill);
    assert_eq!(20, apu.buffers[0].len());
}

#[test]
fn fifo_mixing_and_bias() {
    let mut apu = Apu::new();
    apu.current_samples = [-1, 5];
    assert_eq!((6, 6), apu.fifo_output(0x3304));
    assert_eq!((10, -4), apu.fifo_output(0x1204));
    assert_eq!((0, 0), apu.fifo_output(0x0004));
    assert_eq!(-10, Apu::bias(-10, 0x200));
    assert_eq!(511, Apu::bias(600, 0x200));
    assert_eq!(-512, Apu::bias(-600, 0x200));
}

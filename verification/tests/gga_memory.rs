use gamegirl::gga::memory::{calc_wait_time, Access, Memory};

#[test]
fn wait_times_of_fixed_regions() {
    assert_eq!(6, calc_wait_time::<4>(0, 0x0200_0000, Access::NonSequential));
    assert_eq!(3, calc_wait_time::<2>(0, 0x02FF_FFFF, Access::Sequential));
    assert_eq!(1, calc_wait_time::<4>(0, 0x0300_0000, Access::Sequential));
    assert_eq!(2, calc_wait_time::<4>(0, 0x0600_0000, Access::Sequential));
    assert_eq!(1, calc_wait_time::<2>(0, 0x0600_0000, Access::Sequential));
    assert_eq!(1, calc_wait_time::<4>(0, 0x1000_0000, Access::NonSequential));
}

#[test]
fn wait_times_follow_waitcnt() {
    assert_eq!(2, calc_wait_time::<2>(0, 0x0800_0000, Access::Sequential));
    assert_eq!(6, calc_wait_time::<4>(0, 0x0800_0000, Access::NonSequential));
    assert_eq!(4, calc_wait_time::<2>(0, 0x0800_0000, Access::NonSequential));
    let w = 0x4317;
    assert_eq!(1, calc_wait_time::<2>(w, 0x0800_0000, Access::Sequential));
    assert_eq!(4, calc_wait_time::<4>(w, 0x0900_0000, Access::NonSequential));
    assert_eq!(3, calc_wait_time::<2>(w, 0x0800_0000, Access::NonSequential));
    assert_eq!(4, calc_wait_time::<2>(w, 0x0A00_0000, Access::Sequential));
    assert_eq!(8, calc_wait_time::<2>(w, 0x0C00_0000, Access::NonSequential));
    assert_eq!(16, calc_wait_time::<4>(w, 0x0D00_0000, Access::NonSequential));
    assert_eq!(8, calc_wait_time::<1>(w, 0x0E00_0000, Access::Sequential));
}

#[test]
fn wait_time_table_matches_rule() {
    let mut m = Memory::new(0x4317);
    assert_eq!(4, m.wait_time::<4>(0x0800_1234, Access::NonSequential));
    assert_eq!(8, m.wait_time::<1>(0x0E00_0010, Access::Sequential));
    assert_eq!(6, m.wait_time::<4>(0x0200_0000, Access::Sequential));
    // Addresses past the regions repeat the table every 16 regions.
    assert_eq!(3, m.wait_time::<2>(0x1200_0000, Access::Sequential));
    m.update_wait_times(0);
    assert_eq!(6, m.wait_time::<4>(0x0800_0000, Access::NonSequential));
    for addr in [0u32, 0x0200_0000, 0x0500_0000, 0x0800_0000, 0x0A00_0004, 0x0C00_0000, 0x0E00_0000] {
        for ty in [Access::Sequential, Access::NonSequential] {
            assert_eq!(calc_wait_time::<4>(0, addr, ty), m.wait_time::<4>(addr, ty));
            assert_eq!(calc_wait_time::<2>(0, addr, ty), m.wait_time::<2>(addr, ty));
        }
    }
}

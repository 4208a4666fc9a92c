use gamegirl::gga::caching::Cache;

fn ready() -> Cache<u32> {
    let mut c = Cache::new();
    c.init(0x100);
    c
}

#[test]
fn empty_cache_has_nothing() {
    let c: Cache<u32> = Cache::new();
    assert_eq!(None, c.get(0));
    assert_eq!(None, c.get(0x300_0000));
    assert_eq!(None, c.get(0x800_0000));
}

#[test]
fn blocks_are_found_by_their_address() {
    let mut c = ready();
    c.put(0x100, 1);
    c.put(0x300_0010, 2);
    c.put(0x800_0020, 3);
    assert_eq!(Some(1), c.get(0x100));
    assert_eq!(Some(1), c.get(0x101));
    assert_eq!(Some(2), c.get(0x300_0010));
    assert_eq!(Some(3), c.get(0x800_0020));
    assert_eq!(None, c.get(0x800_0022));
    assert_eq!(None, c.get(0x200_0000));
    // ROM mirrors past the cart size are not cached
    assert_eq!(None, c.get(0x800_0200));
}

#[test]
fn uncached_regions_are_ignored() {
    let mut c = ready();
    c.put(0x200_0000, 9);
    assert_eq!(None, c.get(0x200_0000));
    c.put(0x300_7C00, 9);
    assert_eq!(None, c.get(0x300_7C00));
}

#[test]
fn iwram_write_drops_the_whole_page() {
    let mut c = ready();
    c.put(0x300_0000, 1);
    c.put(0x300_00FE, 2);
    c.put(0x300_0100, 3);
    c.write(0x300_0080);
    assert_eq!(None, c.get(0x300_0000));
    assert_eq!(None, c.get(0x300_00FE));
    assert_eq!(Some(3), c.get(0x300_0100));
    // refilling the page works again
    c.put(0x300_0000, 4);
    assert_eq!(Some(4), c.get(0x300_0000));
    c.write(0x300_0000);
    assert_eq!(None, c.get(0x300_0000));
}

#[test]
fn writes_elsewhere_keep_blocks() {
    let mut c = ready();
    c.put(0x300_0000, 1);
    c.put(0x800_0000, 2);
    c.write(0x800_0000);
    c.write(0x200_0000);
    assert_eq!(Some(1), c.get(0x300_0000));
    assert_eq!(Some(2), c.get(0x800_0000));
}

#[test]
fn rom_invalidation() {
    let mut c = ready();
    c.put(0x800_0000, 2);
    c.put(0x100, 1);
    c.invalidate_rom();
    assert_eq!(None, c.get(0x800_0000));
    assert_eq!(Some(1), c.get(0x100));
    let mut off: Cache<u32> = Cache::new();
    off.invalidate_rom();
    assert_eq!(None, off.get(0x800_0000));
}

#[test]
fn init_keeps_existing_blocks() {
    let mut c = ready();
    c.put(0x800_0010, 5);
    c.init(0x200);
    assert_eq!(Some(5), c.get(0x800_0010));
    assert_eq!(0x100, c.rom.len());
}

#[test]
fn block_boundaries() {
    assert!(Cache::<u32>::can_make_cache(0x3FFE));
    assert!(!Cache::<u32>::can_make_cache(0x3FFF));
    assert!(Cache::<u32>::can_make_cache(0x300_7BFF));
    assert!(!Cache::<u32>::can_make_cache(0x300_7C00));
    assert!(Cache::<u32>::can_make_cache(0xDFF_FFFF));
    assert!(Cache::<u32>::force_end_block(0x300_0080));
    assert!(!Cache::<u32>::force_end_block(0x300_0082));
    assert!(!Cache::<u32>::force_end_block(0x800_0000));
}

use coinbot::cache::CacheTable;

#[test]
fn lookup_misses_on_empty_table() {
    let table: CacheTable<String> = CacheTable::new();
    assert!(table.lookup("p:BTCUSDT", 0).is_none());
}

#[test]
fn store_then_lookup_within_ttl() {
    let mut table: CacheTable<String> = CacheTable::new();
    table.store("p:BTCUSDT", String::from("{\"price\":\"1\"}"), 100, 5);
    let hit = table.lookup("p:BTCUSDT", 104).expect("entry should be live");
    assert_eq!(*hit, "{\"price\":\"1\"}");
}

#[test]
fn lookup_expires_at_ttl() {
    let mut table: CacheTable<String> = CacheTable::new();
    table.store("fee", String::from("12"), 100, 60);
    assert!(table.lookup("fee", 159).is_some());
    assert!(table.lookup("fee", 160).is_none());
    assert!(table.lookup("fee", 1000).is_none());
}

#[test]
fn store_replaces_earlier_entry() {
    let mut table: CacheTable<String> = CacheTable::new();
    table.store("fee", String::from("old"), 0, 10);
    table.store("fee", String::from("new"), 5, 10);
    let hit = table.lookup("fee", 9).expect("replaced entry should be live");
    assert_eq!(*hit, "new");
}

#[test]
fn store_keeps_other_keys() {
    let mut table: CacheTable<u64> = CacheTable::new();
    table.store("a", 1, 0, 10);
    table.store("b", 2, 0, 10);
    assert_eq!(*table.lookup("a", 5).unwrap(), 1);
    assert_eq!(*table.lookup("b", 5).unwrap(), 2);
}

#[test]
fn get_or_fetch_fetches_on_miss() {
    let mut table: CacheTable<u64> = CacheTable::new();
    let r = table.get_or_fetch("k", 0, 5, || Ok::<u64, String>(42));
    assert_eq!(*r.unwrap(), 42);
}

#[test]
fn get_or_fetch_serves_cached_without_fetching() {
    let mut table: CacheTable<u64> = CacheTable::new();
    table.get_or_fetch("k", 0, 5, || Ok::<u64, String>(42)).unwrap();
    // within the window the fetch must not run again
    let r = table.get_or_fetch("k", 4, 5, || -> Result<u64, String> {
        panic!("fetch must not be invoked for a live entry")
    });
    assert_eq!(*r.unwrap(), 42);
}

#[test]
fn get_or_fetch_fetches_again_after_expiry() {
    let mut table: CacheTable<u64> = CacheTable::new();
    table.get_or_fetch("k", 0, 5, || Ok::<u64, String>(42)).unwrap();
    let r = table.get_or_fetch("k", 5, 5, || Ok::<u64, String>(43));
    assert_eq!(*r.unwrap(), 43);
}

#[test]
fn failed_fetch_is_propagated_and_not_cached() {
    let mut table: CacheTable<u64> = CacheTable::new();
    let r = table.get_or_fetch("k", 0, 5, || Err::<u64, String>(String::from("upstream down")));
    assert_eq!(r.unwrap_err(), "upstream down");
    // the failure was not cached: the next call runs the fetch again
    let r = table.get_or_fetch("k", 1, 5, || Ok::<u64, String>(7));
    assert_eq!(*r.unwrap(), 7);
}

#[test]
fn finish_fetch_failure_leaves_table_unchanged() {
    let mut table: CacheTable<u64> = CacheTable::new();
    table.store("k", 1, 0, 5);
    let r = table.finish_fetch::<String>("other", Err(String::from("boom")), 1, 5);
    assert_eq!(r.unwrap_err(), "boom");
    assert!(table.lookup("other", 2).is_none());
    assert_eq!(*table.lookup("k", 2).unwrap(), 1);
}

#[test]
fn finish_fetch_success_stores() {
    let mut table: CacheTable<u64> = CacheTable::new();
    let r = table.finish_fetch::<String>("k", Ok(9), 10, 100);
    assert_eq!(*r.unwrap(), 9);
    assert_eq!(*table.lookup("k", 109).unwrap(), 9);
    assert!(table.lookup("k", 110).is_none());
}

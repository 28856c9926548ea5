use leakbuster::db;
use tempfile::NamedTempFile;

fn tmpf() -> NamedTempFile {
    NamedTempFile::new().unwrap()
}

fn path_of(f: &NamedTempFile) -> &str {
    f.path().to_str().unwrap()
}

#[test]
fn db_can_connect_to_and_initialize_new_db() {
    let f = tmpf();
    db::connect_sqlite(path_of(&f)).expect("Could not create&init db");
}

#[test]
fn db_can_connect_to_existing_db() {
    let f = tmpf();
    db::connect_sqlite(path_of(&f)).unwrap();
    db::connect_sqlite(path_of(&f)).expect("Could not connect to existing db");
}

#[test]
fn can_open_db_in_memory() {
    db::open_in_memory().unwrap();
}

#[test]
fn can_run_queries_against_in_memory_db() {
    let store = db::open_in_memory().unwrap();
    let ts = 1638622611;
    store.record_usage("some-app", ts, 1).unwrap();
    assert_eq!(1, store.get_usage("some-app", ts - 10, ts + 10).unwrap());
}

#[test]
fn db_usage_is_zero_in_fresh_db() {
    let f = tmpf();
    let store = db::connect_sqlite(path_of(&f)).unwrap();
    let usage = store.get_usage("some-app", 0, 1000000000).unwrap();
    assert_eq!(0, usage, "If there are no entries, usage should be 0");
}

#[test]
fn db_can_record_usage() {
    let f = tmpf();
    let store = db::connect_sqlite(path_of(&f)).unwrap();
    store.record_usage("some-app", 1638437768, 60).unwrap();
}

#[test]
fn db_usage_is_calculated_correctly() {
    let f = tmpf();
    let store = db::connect_sqlite(path_of(&f)).unwrap();
    let usages = vec![
        ("a1", 100, 60),
        ("a2", 150, 60),
        ("a1", 200, 60),
        ("a1", 300, 60),
    ];
    for (app_key, timestamp, usage) in usages {
        store.record_usage(app_key, timestamp, usage).unwrap();
    }
    let tests = vec![
        ("a1", 100, 300, 180),
        ("a1", 150, 300, 120),
        ("a1", 100, 250, 120),
        ("a1", 150, 250, 60),
        ("a1", 150, 170, 0),
        ("a2", 100, 300, 60),
    ];
    for (app_key, from, to, expected_usage) in tests {
        let param_str = format!(
            "app_key={}, from={}, to={}, expected_usage={}",
            app_key, from, to, expected_usage
        );
        let u = store
            .get_usage(app_key, from, to)
            .expect(&format!("Could not get usage for params: {}", param_str));
        assert_eq!(expected_usage, u, "{}", param_str);
    }
}

#[test]
fn db_rejects_values_beyond_the_stores_integers() {
    let store = db::open_in_memory().unwrap();
    // out-of-range values are data errors, not engine failures
    assert!(matches!(
        store.record_usage("a", u64::MAX, 1),
        Err(db::Error::InvalidDataError(_))
    ));
    assert!(matches!(
        store.get_usage("a", 0, u64::MAX),
        Err(db::Error::InvalidDataError(_))
    ));
}

use leakbuster::calendar::local_time_from_parts;
use leakbuster::calendar::sliding_window_start;
use leakbuster::calendar::window_start;
use leakbuster::calendar::LocalTime;
use leakbuster::cmd::eval::exit_code;
use leakbuster::cmd::eval::eval_outcome;
use leakbuster::cmd::eval::EvalFailure;
use leakbuster::db;
use leakbuster::expressions::eval_at;
use leakbuster::expressions::eval_in_ledger;
use leakbuster::expressions::parse_condition;
use leakbuster::expressions::parser::TimeUnit;
use leakbuster::ledger::Ledger;
use leakbuster::ledger::LedgerError;

/// Noon of 2000-03-20, a Monday, as a calendar instant (UTC fields).
fn monday_noon() -> LocalTime {
    // 2000-03-20T12:00:00Z; day 80 of a leap year
    local_time_from_parts(953553600, 0, 0, 12, 20, 80, 0).unwrap()
}

/// An instant shortly after the epoch: 150 seconds in.
fn early_instant() -> LocalTime {
    local_time_from_parts(150, 30, 2, 0, 1, 1, 3).unwrap()
}

#[test]
fn no_expression_panics_on_empty_db() {
    let store = db::open_in_memory().unwrap();
    let time = monday_noon();
    let exprs = vec![
        "Mon",
        "Tue",
        "Wed",
        "Thu",
        "Fri",
        "Sat",
        "Sun",
        "Mon and Tue",
        "Wed or Thu",
        "not Fri",
        "atmost 5 m in sliding 1 h",
        "atmost 1 h in this week",
    ];
    for e in exprs {
        let condition = parse_condition(e).unwrap();
        eval_at(&condition, &store, "app", &time).unwrap();
    }
}

#[test]
fn weekday_evaluation_compares_for_equality() {
    let store = db::open_in_memory().unwrap();
    let time = monday_noon();
    let mon = parse_condition("Mon").unwrap();
    let tue = parse_condition("Tue").unwrap();
    let not_tue = parse_condition("not Tue").unwrap();
    assert_eq!(Ok(true), eval_at(&mon, &store, "app", &time).map_err(|_| ()));
    assert_eq!(Ok(false), eval_at(&tue, &store, "app", &time).map_err(|_| ()));
    assert_eq!(Ok(true), eval_at(&not_tue, &store, "app", &time).map_err(|_| ()));
}

#[test]
fn strict_threshold_at_exactly_the_limit_is_false() {
    // usage in the window is exactly 60 seconds
    let mut ledger = Ledger::new();
    ledger.record("a1", 100, 60).unwrap();
    let now = early_instant();
    let at_limit = parse_condition("atmost 60 s in sliding 100 s").unwrap();
    let above_limit = parse_condition("atmost 61 s in sliding 100 s").unwrap();
    assert_eq!(false, eval_in_ledger(&at_limit, &ledger, "a1", &now));
    assert_eq!(true, eval_in_ledger(&above_limit, &ledger, "a1", &now));

    // the same boundary through the SQLite store
    let store = db::open_in_memory().unwrap();
    store.record_usage("a1", 100, 60).unwrap();
    assert_eq!(Ok(false), eval_at(&at_limit, &store, "a1", &now).map_err(|_| ()));
    assert_eq!(Ok(true), eval_at(&above_limit, &store, "a1", &now).map_err(|_| ()));
}

#[test]
fn strict_threshold_calendar_aligned() {
    let mut ledger = Ledger::new();
    ledger.record("a1", 10, 60).unwrap();
    let now = early_instant();
    // the current hour started at the epoch, so all 60 seconds count
    let at_limit = parse_condition("atmost 60 s in this hour").unwrap();
    let above = parse_condition("atmost 61 s in this hour").unwrap();
    assert_eq!(false, eval_in_ledger(&at_limit, &ledger, "a1", &now));
    assert_eq!(true, eval_in_ledger(&above, &ledger, "a1", &now));
}

#[test]
fn sliding_window_accumulates_and_clamps() {
    let mut ledger = Ledger::new();
    ledger.record("a1", 100, 60).unwrap();
    ledger.record("a1", 200, 60).unwrap();
    ledger.record("a1", 300, 60).unwrap();
    assert_eq!(180, ledger.usage_between("a1", 100, 300));
    assert_eq!(120, ledger.usage_between("a1", 150, 300));
    assert_eq!(0, ledger.usage_between("a1", 150, 170));
    // a window reaching before the epoch clamps to zero
    assert_eq!(0, sliding_window_start(10, 100));
    assert_eq!(50, sliding_window_start(150, 100));
}

#[test]
fn empty_ledger_usage_is_zero_over_any_range() {
    let ledger = Ledger::new();
    assert_eq!(0, ledger.usage_between("a1", 0, u64::MAX));
    assert_eq!(0, ledger.usage_between("", 100, 100));
    assert_eq!(0, ledger.usage_between("a1", 300, 100));
}

#[test]
fn ledger_keeps_apps_apart() {
    let mut ledger = Ledger::new();
    ledger.record("a1", 100, 60).unwrap();
    ledger.record("a2", 150, 60).unwrap();
    ledger.record("a1", 200, 60).unwrap();
    assert_eq!(120, ledger.usage_between("a1", 100, 300));
    assert_eq!(60, ledger.usage_between("a2", 100, 300));
    assert_eq!(0, ledger.usage_between("a3", 100, 300));
}

#[test]
fn ledger_rejects_a_total_beyond_its_counter() {
    let mut ledger = Ledger::new();
    ledger.record("a1", 1, u64::MAX).unwrap();
    assert_eq!(Err(LedgerError::TotalOverflow), ledger.record("a1", 2, 1));
    // the failed record left the ledger unchanged
    assert_eq!(u64::MAX, ledger.usage_between("a1", 0, 10));
}

#[test]
fn calendar_truncation_zeroes_the_smaller_fields() {
    // 1_000_000 seconds past the epoch: day 12, 13:46:40
    let t = local_time_from_parts(1_000_000, 40, 46, 13, 12, 12, 0).unwrap();
    assert_eq!(1_000_000, window_start(&t, TimeUnit::Second));
    assert_eq!(999_960, window_start(&t, TimeUnit::Minute));
    assert_eq!(997_200, window_start(&t, TimeUnit::Hour));
    assert_eq!(950_400, window_start(&t, TimeUnit::Day));
    // `week` truncates exactly like `day`
    assert_eq!(950_400, window_start(&t, TimeUnit::Week));
    assert_eq!(0, window_start(&t, TimeUnit::Month));
    assert_eq!(0, window_start(&t, TimeUnit::Year));
}

#[test]
fn calendar_rejects_unrepresentable_instants() {
    // before the epoch
    assert!(local_time_from_parts(-1, 0, 0, 0, 1, 1, 0).is_none());
    // fields out of range
    assert!(local_time_from_parts(100, 60, 0, 0, 1, 1, 0).is_none());
    assert!(local_time_from_parts(100, 0, 0, 24, 1, 1, 0).is_none());
    assert!(local_time_from_parts(100, 0, 0, 0, 0, 1, 0).is_none());
    assert!(local_time_from_parts(100, 0, 0, 0, 1, 1, 7).is_none());
    // the start of the containing day would precede the epoch
    assert!(local_time_from_parts(100, 30, 2, 0, 1, 1, 0).is_none());
}

#[test]
fn exit_codes_follow_the_outcome() {
    assert_eq!(0, exit_code(&Ok(true)));
    assert_eq!(1, exit_code(&Ok(false)));
    assert_eq!(2, exit_code(&Err(EvalFailure::Parse("no".to_string()))));
    assert_eq!(
        3,
        exit_code(&Err(EvalFailure::Ledger(db::Error::InvalidDataError("x".to_string()))))
    );
}

#[test]
fn eval_outcome_classifies_parse_failures() {
    let store = db::open_in_memory().unwrap();
    let bad = eval_outcome("nonsense ((", &store, "app");
    assert!(matches!(bad, Err(EvalFailure::Parse(_))));
    assert_eq!(2, exit_code(&bad));
    // a well-formed condition evaluates against the real clock
    let good = eval_outcome("Mon or not Mon", &store, "app");
    assert_eq!(Ok(true), good.map_err(|_| ()));
}

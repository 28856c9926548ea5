//! Evaluation of conditions against an instant and a usage ledger.
pub mod laws;
pub mod parser;

pub use crate::expressions::parser::parse_condition;

use vstd::prelude::*;
use vstd::string::StrSliceExecFns;
use crate::calendar::LocalTime;
use crate::calendar::local_time_now;
use crate::calendar::sliding_window_start;
use crate::calendar::spec_sliding_start;
use crate::calendar::spec_window_start;
use crate::calendar::window_start;
use crate::db;
use crate::db::Db;
use crate::expressions::parser::Condition;
use crate::expressions::parser::ConditionAtMostInSliding;
use crate::expressions::parser::ConditionAtMostInThis;
use crate::expressions::parser::Duration;
use crate::ledger::Ledger;
use crate::ledger::UsageRecord;
use crate::ledger::spec_usage_between;

verus! {

/// The meaning of a condition at the instant `now`, for the app `app`,
/// against the given ledger records.
///
/// The two threshold forms compare strictly: usage exactly equal to the
/// limit makes them false.
pub open spec fn spec_eval(
    c: Condition,
    now: LocalTime,
    records: Seq<UsageRecord>,
    app: Seq<char>,
) -> bool
    decreases c,
{
    match c {
        Condition::And(a) => spec_eval(*a.c1, now, records, app) && spec_eval(
            *a.c2,
            now,
            records,
            app,
        ),
        Condition::Or(o) => spec_eval(*o.c1, now, records, app) || spec_eval(
            *o.c2,
            now,
            records,
            app,
        ),
        Condition::Not(m) => !spec_eval(*m.c, now, records, app),
        Condition::Weekday(w) => w == now.weekday,
        Condition::AtMostInSliding(cw) => spec_usage_between(
            records,
            app,
            spec_sliding_start(now.timestamp, cw.window_size.seconds),
            now.timestamp as int,
        ) < cw.limit.seconds,
        Condition::AtMostInThis(cc) => spec_usage_between(
            records,
            app,
            spec_window_start(now, cc.time_unit),
            now.timestamp as int,
        ) < cc.limit.seconds,
    }
}

/// Evaluate a condition against the in-memory ledger. Total: every
/// condition has a boolean value here, and it is exactly [`spec_eval`].
pub fn eval_in_ledger(c: &Condition, ledger: &Ledger, app_id: &str, now: &LocalTime) -> (b: bool)
    requires
        ledger.wf(),
        now.wf(),
    ensures
        b == spec_eval(*c, *now, ledger@, app_id@),
    decreases *c,
{
    match c {
        Condition::And(a) => {
            let b1 = eval_in_ledger(&a.c1, ledger, app_id, now);
            let b2 = eval_in_ledger(&a.c2, ledger, app_id, now);
            b1 && b2
        }
        Condition::Or(o) => {
            let b1 = eval_in_ledger(&o.c1, ledger, app_id, now);
            let b2 = eval_in_ledger(&o.c2, ledger, app_id, now);
            b1 || b2
        }
        Condition::Not(m) => !eval_in_ledger(&m.c, ledger, app_id, now),
        Condition::Weekday(w) => *w == now.weekday,
        Condition::AtMostInSliding(cw) => {
            let from = sliding_window_start(now.timestamp, cw.window_size.seconds);
            let usage = ledger.usage_between(app_id, from, now.timestamp);
            usage < cw.limit.seconds
        }
        Condition::AtMostInThis(cc) => {
            let start = window_start(now, cc.time_unit);
            let usage = ledger.usage_between(app_id, start, now.timestamp);
            usage < cc.limit.seconds
        }
    }
}

/// Does evaluating the condition leave the ledger unread? True for
/// conditions built from weekdays and boolean combinators alone.
pub open spec fn ledger_free(c: Condition) -> bool
    decreases c,
{
    match c {
        Condition::And(a) => ledger_free(*a.c1) && ledger_free(*a.c2),
        Condition::Or(o) => ledger_free(*o.c1) && ledger_free(*o.c2),
        Condition::Not(m) => ledger_free(*m.c),
        Condition::Weekday(_) => true,
        Condition::AtMostInSliding(_) => false,
        Condition::AtMostInThis(_) => false,
    }
}

/// A ledger-free condition evaluates the same against any records.
pub proof fn lemma_ledger_free_eval(
    c: Condition,
    now: LocalTime,
    r1: Seq<UsageRecord>,
    r2: Seq<UsageRecord>,
    app: Seq<char>,
)
    requires
        ledger_free(c),
    ensures
        spec_eval(c, now, r1, app) == spec_eval(c, now, r2, app),
    decreases c,
{
    match c {
        Condition::And(a) => {
            lemma_ledger_free_eval(*a.c1, now, r1, r2, app);
            lemma_ledger_free_eval(*a.c2, now, r1, r2, app);
        }
        Condition::Or(o) => {
            lemma_ledger_free_eval(*o.c1, now, r1, r2, app);
            lemma_ledger_free_eval(*o.c2, now, r1, r2, app);
        }
        Condition::Not(m) => {
            lemma_ledger_free_eval(*m.c, now, r1, r2, app);
        }
        _ => {}
    }
}

/// The strict threshold decision on a usage total the store answered:
/// true exactly when the usage lies strictly below the limit, so a total
/// equal to the limit does not pass.
pub fn threshold_met(usage: u64, limit: Duration) -> (b: bool)
    ensures
        b == (usage < limit.seconds),
{
    usage < limit.seconds
}

/// Evaluate a condition at the instant `now` against the SQLite store.
///
/// The window bounds handed to the store, and everything decided from what
/// it returns, are verified; what the store itself answers is not under
/// the engine's control. Errors of the store are propagated in evaluation
/// order, left branch first, and only a threshold node can raise one: a
/// condition that never reads the ledger cannot fail and evaluates exactly
/// to its specification.
pub fn eval_at(c: &Condition, store: &Db, app_id: &str, now: &LocalTime) -> (r: Result<
    bool,
    db::Error,
>)
    requires
        now.wf(),
    ensures
        ledger_free(*c) ==> (r matches Ok(b) && b == spec_eval(
            *c,
            *now,
            Seq::<UsageRecord>::empty(),
            app_id@,
        )),
        r is Err ==> !ledger_free(*c),
    decreases *c,
{
    match c {
        Condition::And(a) => {
            match eval_at(&a.c1, store, app_id, now) {
                Err(e) => Err(e),
                Ok(b1) => match eval_at(&a.c2, store, app_id, now) {
                    Err(e) => Err(e),
                    Ok(b2) => Ok(b1 && b2),
                },
            }
        }
        Condition::Or(o) => {
            match eval_at(&o.c1, store, app_id, now) {
                Err(e) => Err(e),
                Ok(b1) => match eval_at(&o.c2, store, app_id, now) {
                    Err(e) => Err(e),
                    Ok(b2) => Ok(b1 || b2),
                },
            }
        }
        Condition::Not(m) => {
            match eval_at(&m.c, store, app_id, now) {
                Err(e) => Err(e),
                Ok(b) => Ok(!b),
            }
        }
        Condition::Weekday(w) => Ok(*w == now.weekday),
        Condition::AtMostInSliding(cw) => {
            let from = sliding_window_start(now.timestamp, cw.window_size.seconds);
            match store.get_usage(app_id, from, now.timestamp) {
                Err(e) => Err(e),
                Ok(usage) => Ok(threshold_met(usage, cw.limit)),
            }
        }
        Condition::AtMostInThis(cc) => {
            let start = window_start(now, cc.time_unit);
            match store.get_usage(app_id, start, now.timestamp) {
                Err(e) => Err(e),
                Ok(usage) => Ok(threshold_met(usage, cc.limit)),
            }
        }
    }
}

/// Evaluate a condition for `app_id` at the current local time against the
/// SQLite store. Fails when the store fails, or, with a data error, when
/// the system clock is outside the representable calendar. A ledger-free
/// condition can fail only on the clock, and its value is its meaning at
/// some well-formed instant of the calendar.
pub fn check_condition(condition: &Condition, store: &Db, app_id: &str) -> (r: Result<
    bool,
    db::Error,
>)
    ensures
        ledger_free(*condition) ==> (r matches Err(e) ==> e is InvalidDataError),
        ledger_free(*condition) ==> (r matches Ok(b) ==> exists|t: LocalTime|
            t.wf() && b == spec_eval(*condition, t, Seq::<UsageRecord>::empty(), app_id@)),
{
    match local_time_now() {
        None => Err(
            db::Error::InvalidDataError(
                "the system clock is outside the representable calendar".to_owned(),
            ),
        ),
        Some(now) => eval_at(condition, store, app_id, &now),
    }
}

/// Strict thresholds: a sliding-window condition whose window usage equals
/// its limit is false; with usage strictly below the limit it is true.
pub proof fn lemma_strict_threshold_sliding(
    now: LocalTime,
    records: Seq<UsageRecord>,
    app: Seq<char>,
    limit: Duration,
    window: Duration,
)
    ensures
        spec_usage_between(
            records,
            app,
            spec_sliding_start(now.timestamp, window.seconds),
            now.timestamp as int,
        ) == limit.seconds ==> !spec_eval(
            Condition::AtMostInSliding(ConditionAtMostInSliding { limit, window_size: window }),
            now,
            records,
            app,
        ),
        spec_usage_between(
            records,
            app,
            spec_sliding_start(now.timestamp, window.seconds),
            now.timestamp as int,
        ) < limit.seconds ==> spec_eval(
            Condition::AtMostInSliding(ConditionAtMostInSliding { limit, window_size: window }),
            now,
            records,
            app,
        ),
{
}

/// Strict thresholds for the calendar-aligned form, as for the sliding one.
pub proof fn lemma_strict_threshold_this(
    now: LocalTime,
    records: Seq<UsageRecord>,
    app: Seq<char>,
    limit: Duration,
    unit: crate::expressions::parser::TimeUnit,
)
    ensures
        spec_usage_between(records, app, spec_window_start(now, unit), now.timestamp as int)
            == limit.seconds ==> !spec_eval(
            Condition::AtMostInThis(ConditionAtMostInThis { limit, time_unit: unit }),
            now,
            records,
            app,
        ),
        spec_usage_between(records, app, spec_window_start(now, unit), now.timestamp as int)
            < limit.seconds ==> spec_eval(
            Condition::AtMostInThis(ConditionAtMostInThis { limit, time_unit: unit }),
            now,
            records,
            app,
        ),
{
}

} // verus!

//! The usage ledger: an append-only store of per-app elapsed-time samples,
//! queried by summed duration over an inclusive time range.
//!
//! This in-memory ledger is the reference model of the ledger contract that
//! the condition evaluator depends on; the SQLite-backed store offers the
//! same interface.
use vstd::prelude::*;
use crate::text::str_eq;

verus! {

/// One usage sample: `app` ran for `duration` seconds at `timestamp`.
#[derive(Debug)]
pub struct UsageRecord {
    pub app: String,
    pub timestamp: u64,
    pub duration: u64,
}

/// Sum of the durations of all records.
pub open spec fn spec_total(records: Seq<UsageRecord>) -> int
    decreases records.len(),
{
    if records.len() == 0 {
        0
    } else {
        spec_total(records.drop_last()) + records.last().duration
    }
}

pub open spec fn record_in_range(r: UsageRecord, app: Seq<char>, from: int, to: int) -> bool {
    r.app@ == app && from <= r.timestamp <= to
}

/// Sum of the durations of the records of `app` whose timestamp lies in the
/// inclusive range `[from, to]`.
pub open spec fn spec_usage_between(
    records: Seq<UsageRecord>,
    app: Seq<char>,
    from: int,
    to: int,
) -> int
    decreases records.len(),
{
    if records.len() == 0 {
        0
    } else {
        spec_usage_between(records.drop_last(), app, from, to) + if record_in_range(
            records.last(),
            app,
            from,
            to,
        ) {
            records.last().duration as int
        } else {
            0
        }
    }
}

/// A ledger with no records has zero usage over any range, for any app.
pub proof fn lemma_empty_ledger_usage(app: Seq<char>, from: int, to: int)
    ensures
        spec_usage_between(Seq::<UsageRecord>::empty(), app, from, to) == 0,
{
}

pub proof fn lemma_usage_between_bounds(records: Seq<UsageRecord>, app: Seq<char>, from: int, to: int)
    ensures
        0 <= spec_usage_between(records, app, from, to) <= spec_total(records),
    decreases records.len(),
{
    if records.len() > 0 {
        lemma_usage_between_bounds(records.drop_last(), app, from, to);
    }
}

/// An error of the ledger itself: the running total can no longer be
/// represented.
#[derive(Debug, PartialEq, Eq, Structural)]
pub enum LedgerError {
    TotalOverflow,
}

/// The in-memory usage ledger. Its view is the sequence of its records in
/// insertion order.
pub struct Ledger {
    records: Vec<UsageRecord>,
    total: u64,
}

impl View for Ledger {
    type V = Seq<UsageRecord>;

    closed spec fn view(&self) -> Seq<UsageRecord> {
        self.records@
    }
}

impl Ledger {
    /// The running total equals the sum of all recorded durations; in
    /// particular that sum fits in 64 bits.
    pub closed spec fn wf(self) -> bool {
        self.total as int == spec_total(self.records@)
    }

    /// A fresh ledger with no records.
    pub fn new() -> (l: Ledger)
        ensures
            l@ =~= Seq::<UsageRecord>::empty(),
            l.wf(),
    {
        Ledger { records: Vec::new(), total: 0 }
    }

    /// Append one usage sample; never overwrites. Fails exactly when the
    /// overall recorded total would no longer fit in 64 bits, leaving the
    /// ledger unchanged.
    pub fn record(&mut self, app_id: &str, timestamp: u64, duration: u64) -> (r: Result<
        (),
        LedgerError,
    >)
        requires
            old(self).wf(),
        ensures
            final(self).wf(),
            (r is Ok) == (spec_total(old(self)@) + duration <= u64::MAX),
            r is Ok ==> final(self)@.len() == old(self)@.len() + 1,
            r is Ok ==> final(self)@.subrange(0, old(self)@.len() as int) =~= old(self)@,
            r is Ok ==> final(self)@.last().app@ == app_id@,
            r is Ok ==> final(self)@.last().timestamp == timestamp,
            r is Ok ==> final(self)@.last().duration == duration,
            r is Err ==> final(self)@ =~= old(self)@,
    {
        match self.total.checked_add(duration) {
            Some(new_total) => {
                let rec = UsageRecord { app: app_id.to_owned(), timestamp, duration };
                self.records.push(rec);
                self.total = new_total;
                proof {
                    assert(self.records@.drop_last() =~= old(self).records@);
                }
                Ok(())
            }
            None => Err(LedgerError::TotalOverflow),
        }
    }

    /// Total usage of `app_id` over the inclusive range `[from, to]`; `0`
    /// when no record falls in the range, also on a ledger with no records
    /// at all.
    pub fn usage_between(&self, app_id: &str, from: u64, to: u64) -> (total: u64)
        requires
            self.wf(),
        ensures
            total as int == spec_usage_between(self@, app_id@, from as int, to as int),
    {
        let n = self.records.len();
        let mut acc: u64 = 0;
        let mut i: usize = 0;
        while i < n
            invariant
                self.wf(),
                n == self.records@.len(),
                0 <= i <= n,
                acc as int == spec_usage_between(
                    self.records@.take(i as int),
                    app_id@,
                    from as int,
                    to as int,
                ),
            decreases n - i,
        {
            let rec = &self.records[i];
            proof {
                assert(self.records@.take(i + 1).drop_last() =~= self.records@.take(i as int));
                assert(self.records@.take(i + 1).last() == self.records@[i as int]);
                lemma_usage_between_bounds(
                    self.records@.take(i + 1),
                    app_id@,
                    from as int,
                    to as int,
                );
                lemma_total_take_le(self.records@, i + 1);
            }
            if str_eq(rec.app.as_str(), app_id) && from <= rec.timestamp && rec.timestamp <= to {
                acc = acc + rec.duration;
            }
            i += 1;
        }
        proof {
            assert(self.records@.take(n as int) =~= self.records@);
        }
        acc
    }
}

pub proof fn lemma_total_take_le(records: Seq<UsageRecord>, j: int)
    requires
        0 <= j <= records.len(),
    ensures
        spec_total(records.take(j)) <= spec_total(records),
    decreases records.len(),
{
    if j < records.len() {
        assert(records.drop_last().take(j) =~= records.take(j));
        lemma_total_take_le(records.drop_last(), j);
    } else {
        assert(records.take(j) =~= records);
    }
}

} // verus!

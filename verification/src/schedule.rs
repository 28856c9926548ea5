//! The hook scheduler: a priority structure of pending hook firings keyed
//! by due time. On each tick every hook whose due time has elapsed is
//! popped; a recurring hook is reinserted at `now + interval`, so its
//! cadence drifts forward from the actual fire time, and a one-shot hook
//! (interval zero) is removed for good.
//!
//! Hooks are identified by their index in the list they were scheduled
//! from; the queue itself is an outside collection, trusted only for the
//! few contracts stated on the wrappers below.
use vstd::prelude::*;
use std::cmp::Reverse;
use std::collections::hash_map::RandomState;
use priority_queue::PriorityQueue;
use crate::expressions::parser::Duration;

verus! {

#[verifier::external_type_specification]
pub struct ExReverse<T>(Reverse<T>);

#[verifier::external_type_specification]
#[verifier::external_body]
#[verifier::reject_recursive_types(I)]
#[verifier::reject_recursive_types(P)]
#[verifier::reject_recursive_types(H)]
pub struct ExPriorityQueue<I, P, H>(PriorityQueue<I, P, H>);

/// The concrete queue the scheduler keeps: hook indices, prioritized by
/// reversed due time, so that the soonest due hook has the greatest
/// priority.
pub type HookQueue = PriorityQueue<u64, Reverse<u64>, RandomState>;

/// What the queue holds: each stored hook index, mapped to its due time.
pub uninterp spec fn schedule_contents(q: HookQueue) -> Map<u64, u64>;

/// The contents of a queue with nothing pending.
pub open spec fn no_pending() -> Map<u64, u64> {
    Map::empty()
}

/// Relies on priority-queue's `PriorityQueue::new`: an empty queue.
#[verifier::external_body]
fn pq_new() -> (q: HookQueue)
    ensures
        schedule_contents(q) == no_pending(),
{
    PriorityQueue::new()
}

/// Relies on priority-queue's `PriorityQueue::push`: sets the priority of
/// `item`, inserting the item if it is absent. The due time is stored
/// reversed, so the greatest priority is the least due time.
#[verifier::external_body]
fn pq_push(q: &mut HookQueue, item: u64, due: u64)
    ensures
        schedule_contents(*final(q)) == schedule_contents(*old(q)).insert(item, due),
{
    q.push(item, Reverse(due));
}

/// Relies on priority-queue's `PriorityQueue::pop`: removes and returns an
/// entry with the greatest priority, that is, with the least due time;
/// nothing is stated about which of several equally due entries leaves.
#[verifier::external_body]
fn pq_pop(q: &mut HookQueue) -> (r: Option<(u64, u64)>)
    ensures
        r is None ==> schedule_contents(*old(q)).dom() =~= Set::<u64>::empty()
            && schedule_contents(*final(q)) == schedule_contents(*old(q)),
        r matches Some(p) ==> schedule_contents(*old(q)).contains_pair(p.0, p.1)
            && (forall|i: u64|
            schedule_contents(*old(q)).dom().contains(i) ==> p.1 <= schedule_contents(*old(q))[i])
            && schedule_contents(*final(q)) == schedule_contents(*old(q)).remove(p.0),
{
    match q.pop() {
        None => None,
        Some((i, Reverse(d))) => Some((i, d)),
    }
}

/// Relies on priority-queue's `PriorityQueue::peek`: an entry with the
/// greatest priority, that is, with the least due time, left in place.
#[verifier::external_body]
fn pq_peek(q: &HookQueue) -> (r: Option<(u64, u64)>)
    ensures
        r is None ==> schedule_contents(*q).dom() =~= Set::<u64>::empty(),
        r matches Some(p) ==> schedule_contents(*q).contains_pair(p.0, p.1) && (forall|i: u64|
            schedule_contents(*q).dom().contains(i) ==> p.1 <= schedule_contents(*q)[i]),
{
    match q.peek() {
        None => None,
        Some((i, p)) => Some((*i, p.0)),
    }
}

/// A hook fired on a schedule: an external command, a delay before its
/// first firing, and its recurrence interval. An interval of zero marks a
/// one-shot hook.
#[derive(Debug, Clone, PartialEq)]
pub struct ScheduledHook {
    pub cmd: String,
    pub args: Vec<String>,
    pub initial_delay: Duration,
    pub interval: Duration,
}

/// The indices of `m` that are due at `now`.
pub open spec fn spec_due_set(m: Map<u64, u64>, now: u64) -> Set<u64> {
    m.dom().filter(|i: u64| m[i] <= now)
}

/// The due map after one tick at `now`: every due hook fires; a fired hook
/// with a positive interval is rescheduled at `now + interval`, a fired
/// one-shot hook leaves the schedule, and hooks not yet due keep their due
/// time.
pub open spec fn spec_after_fire(m: Map<u64, u64>, ivs: Seq<u64>, now: u64) -> Map<u64, u64> {
    Map::new(
        |i: u64|
            m.dom().contains(i) && (m[i] > now || (i < ivs.len() && ivs[i as int] > 0)),
        |i: u64|
            if m[i] <= now {
                (now + ivs[i as int]) as u64
            } else {
                m[i]
            },
    )
}

/// The pending firings of a set of hooks: each scheduled hook's index,
/// mapped to the time it is next due, ordered soonest-due-first.
pub struct Schedule {
    queue: HookQueue,
    intervals: Vec<u64>,
}

impl Schedule {
    /// Due time of each scheduled hook index.
    pub closed spec fn due_map(self) -> Map<u64, u64> {
        schedule_contents(self.queue)
    }

    /// Recurrence interval of each known hook index.
    pub closed spec fn intervals_seq(self) -> Seq<u64> {
        self.intervals@
    }

    /// Every scheduled index is a known hook.
    pub open spec fn wf(self) -> bool {
        &&& self.due_map().dom().finite()
        &&& forall|i: u64| self.due_map().dom().contains(i) ==> i < self.intervals_seq().len()
    }

    /// A schedule that knows the hooks' intervals but has nothing pending.
    pub fn empty_with_intervals(hooks: &Vec<ScheduledHook>) -> (s: Schedule)
        ensures
            s.wf(),
            s.due_map() == Map::<u64, u64>::empty(),
            s.intervals_seq() =~= hooks@.map_values(|h: ScheduledHook| h.interval.seconds),
    {
        let mut intervals: Vec<u64> = Vec::new();
        let n = hooks.len();
        let mut k: usize = 0;
        while k < n
            invariant
                n == hooks@.len(),
                0 <= k <= n,
                intervals@.len() == k,
                forall|j: int| 0 <= j < k ==> intervals@[j] == hooks@[j].interval.seconds,
            decreases n - k,
        {
            intervals.push(hooks[k].interval.seconds);
            k += 1;
        }
        let s = Schedule { queue: pq_new(), intervals };
        s
    }

    /// The soonest pending firing: a hook index and its due time, with no
    /// other pending hook due earlier; nothing when the schedule is empty.
    pub fn next_due(&self) -> (r: Option<(u64, u64)>)
        ensures
            r is None ==> self.due_map().dom() =~= Set::<u64>::empty(),
            r matches Some(p) ==> self.due_map().contains_pair(p.0, p.1) && (forall|i: u64|
                self.due_map().dom().contains(i) ==> p.1 <= self.due_map()[i]),
    {
        pq_peek(&self.queue)
    }

    /// Fire every hook due at `now`, in order of due time: the result
    /// lists the indices to fire, and the schedule afterwards holds
    /// exactly what [`spec_after_fire`] describes.
    pub fn fire_due(&mut self, now: u64) -> (fired: Vec<u64>)
        requires
            old(self).wf(),
            forall|i: u64|
                old(self).due_map().dom().contains(i) ==> old(self).intervals_seq()[i as int]
                    <= u64::MAX - now,
        ensures
            final(self).wf(),
            final(self).intervals_seq() == old(self).intervals_seq(),
            final(self).due_map() == spec_after_fire(
                old(self).due_map(),
                old(self).intervals_seq(),
                now,
            ),
            forall|k: int|
                0 <= k < fired@.len() ==> old(self).due_map().dom().contains(fired@[k]) && old(
                    self,
                ).due_map()[fired@[k]] <= now,
            forall|i: u64|
                old(self).due_map().dom().contains(i) && old(self).due_map()[i] <= now
                    ==> fired@.contains(i),
            forall|k1: int, k2: int| 0 <= k1 < k2 < fired@.len() ==> fired@[k1] != fired@[k2],
            forall|k1: int, k2: int|
                0 <= k1 < k2 < fired@.len() ==> old(self).due_map()[fired@[k1]] <= old(
                    self,
                ).due_map()[fired@[k2]],
    {
        let ghost m0 = old(self).due_map();
        let ghost ivs = old(self).intervals_seq();
        let mut fired: Vec<u64> = Vec::new();

        // Pop every due entry, soonest first.
        loop
            invariant
                self.intervals@ == ivs,
                self.wf(),
                // what is left is exactly the part of m0 not yet fired
                forall|i: u64|
                    #![auto]
                    self.due_map().dom().contains(i) ==> m0.contains_pair(i, self.due_map()[i]),
                forall|i: u64|
                    m0.dom().contains(i) ==> (fired@.contains(i) || self.due_map().contains_pair(
                        i,
                        m0[i],
                    )),
                forall|k: int|
                    0 <= k < fired@.len() ==> m0.dom().contains(fired@[k]) && m0[fired@[k]] <= now
                        && !self.due_map().dom().contains(fired@[k]),
                forall|k1: int, k2: int| 0 <= k1 < k2 < fired@.len() ==> fired@[k1] != fired@[k2],
                forall|k1: int, k2: int|
                    0 <= k1 < k2 < fired@.len() ==> m0[fired@[k1]] <= m0[fired@[k2]],
                // every already fired entry was due no later than anything left
                forall|k: int, i: u64|
                    #![auto]
                    0 <= k < fired@.len() && self.due_map().dom().contains(i) ==> m0[fired@[k]]
                        <= self.due_map()[i],
            ensures
                self.intervals@ == ivs,
                self.wf(),
                forall|i: u64|
                    #![auto]
                    self.due_map().dom().contains(i) ==> m0.contains_pair(i, self.due_map()[i]),
                forall|i: u64|
                    m0.dom().contains(i) && m0[i] > now ==> self.due_map().contains_pair(i, m0[i]),
                forall|i: u64| m0.dom().contains(i) && m0[i] <= now ==> fired@.contains(i),
                forall|k: int|
                    0 <= k < fired@.len() ==> m0.dom().contains(fired@[k]) && m0[fired@[k]] <= now
                        && !self.due_map().dom().contains(fired@[k]),
                forall|k1: int, k2: int| 0 <= k1 < k2 < fired@.len() ==> fired@[k1] != fired@[k2],
                forall|k1: int, k2: int|
                    0 <= k1 < k2 < fired@.len() ==> m0[fired@[k1]] <= m0[fired@[k2]],
            decreases self.due_map().dom().len(),
        {
            let ghost pre = self.due_map();
            let r = pq_pop(&mut self.queue);
            match r {
                None => {
                    proof {
                        // nothing is left, so every entry of m0 was fired
                        assert forall|i: u64| m0.dom().contains(i) implies fired@.contains(i) by {
                            assert(!pre.dom().contains(i) ==> fired@.contains(i));
                        }
                        // nothing of m0 can still be pending here, and nothing
                        // pending was ever above `now`: the clause is vacuous
                        assert forall|i: u64|
                            m0.dom().contains(i) && m0[i] > now implies self.due_map().contains_pair(
                            i,
                            m0[i],
                        ) by {
                            assert(fired@.contains(i));
                            let kj = choose|kj: int|
                                0 <= kj < fired@.len() && fired@[kj] == i;
                            assert(m0[fired@[kj]] <= now);
                            assert(false);
                        }
                    }
                    break ;
                }
                Some((i, d)) => {
                    if d <= now {
                        let ghost fprev = fired@;
                        fired.push(i);
                        proof {
                            assert(fired@ == fprev.push(i));
                            assert(fired@[fprev.len() as int] == i);
                            assert(fired@.contains(i));
                            assert forall|x: u64| fprev.contains(x) implies fired@.contains(x) by {
                                let kx = choose|kx: int|
                                    0 <= kx < fprev.len() && fprev[kx] == x;
                                assert(fired@[kx] == x);
                            }
                            // the popped entry still carries the due time it was scheduled with
                            assert(m0.contains_pair(i, d));
                            // order: everything fired before was due no later
                            assert forall|k1: int, k2: int|
                                0 <= k1 < k2 < fired@.len() implies m0[fired@[k1]] <= m0[fired@[k2]] by {
                                if k2 < fprev.len() {
                                } else {
                                    assert(fired@[k2] == i);
                                    assert(m0[fired@[k1]] <= pre[i]);
                                }
                            }
                        }
                    } else {
                        pq_push(&mut self.queue, i, d);
                        proof {
                            assert(self.due_map() =~= pre);
                            // the least remaining due time is already past `now`,
                            // so everything still pending is not yet due
                            assert forall|j: u64|
                                m0.dom().contains(j) && m0[j] <= now implies fired@.contains(j) by {
                                if !fired@.contains(j) {
                                    assert(pre.contains_pair(j, m0[j]));
                                    assert(d <= pre[j]);
                                }
                            }
                            assert forall|j: u64|
                                m0.dom().contains(j) && m0[j] > now implies self.due_map().contains_pair(
                                j,
                                m0[j],
                            ) by {
                                if fired@.contains(j) {
                                    let kj = choose|kj: int|
                                        0 <= kj < fired@.len() && fired@[kj] == j;
                                    assert(m0[fired@[kj]] <= now);
                                }
                            }
                        }
                        break ;
                    }
                }
            }
        }
        proof {
            // every fired hook is a known hook with a bounded interval
            assert forall|k: int|
                0 <= k < fired@.len() implies fired@[k] < ivs.len() && ivs[fired@[k] as int]
                    <= u64::MAX - now by {
                assert(m0.dom().contains(fired@[k]));
            }
        }
        // Reinsert the fired recurring hooks one interval past this tick.
        let n_fired = fired.len();
        let mut k: usize = 0;
        while k < n_fired
            invariant
                self.intervals@ == ivs,
                n_fired == fired@.len(),
                0 <= k <= n_fired,
                self.due_map().dom().finite(),
                forall|kk: int|
                    0 <= kk < fired@.len() ==> m0.dom().contains(fired@[kk]) && m0[fired@[kk]]
                        <= now && fired@[kk] < ivs.len(),
                forall|kk: int|
                    0 <= kk < fired@.len() ==> ivs[fired@[kk] as int] <= u64::MAX - now,
                forall|k1: int, k2: int| 0 <= k1 < k2 < fired@.len() ==> fired@[k1] != fired@[k2],
                forall|i: u64|
                    m0.dom().contains(i) && m0[i] <= now ==> fired@.contains(i),
                // unfired entries sit untouched
                forall|i: u64|
                    #![auto]
                    m0.dom().contains(i) && m0[i] > now ==> self.due_map().contains_pair(i, m0[i]),
                // fired and processed: rescheduled or gone; fired and waiting: gone
                forall|kk: int|
                    #![auto]
                    0 <= kk < k && ivs[fired@[kk] as int] > 0 ==> self.due_map().contains_pair(
                        fired@[kk],
                        (now + ivs[fired@[kk] as int]) as u64,
                    ),
                forall|kk: int|
                    #![auto]
                    0 <= kk < k && ivs[fired@[kk] as int] == 0 ==> !self.due_map().dom().contains(
                        fired@[kk],
                    ),
                forall|kk: int|
                    k <= kk < fired@.len() ==> !self.due_map().dom().contains(fired@[kk]),
                // nothing outside m0 ever appears
                forall|i: u64|
                    self.due_map().dom().contains(i) ==> m0.dom().contains(i),
                forall|i: u64| self.due_map().dom().contains(i) ==> i < ivs.len(),
            decreases n_fired - k,
        {
            let i = fired[k];
            let ilen = self.intervals.len();
            proof {
                assert(fired@[k as int] == i);
                assert(m0.dom().contains(i) && m0[i] <= now && i < ivs.len());
                assert(ivs[i as int] <= u64::MAX - now);
                assert(i < ilen);
            }
            let iv = self.intervals[i as usize];
            proof {
                assert(iv == ivs[i as int]);
            }
            let ghost cur = self.due_map();
            if iv > 0 {
                pq_push(&mut self.queue, i, now + iv);
                proof {
                    assert(self.due_map() == cur.insert(i, (now + iv) as u64));
                    assert forall|kk: int| 0 <= kk < k implies fired@[kk] != i by {
                        assert(fired@[k as int] == i);
                    }
                    assert forall|j: u64|
                        m0.dom().contains(j) && m0[j] > now implies self.due_map().contains_pair(
                        j,
                        m0[j],
                    ) by {
                        assert(j != i);
                        assert(cur.contains_pair(j, m0[j]));
                    }
                }
            }
            k += 1;
        }
        proof {
            let fin = self.due_map();
            let af = spec_after_fire(m0, ivs, now);
            assert forall|i: u64| af.dom().contains(i) implies fin.dom().contains(i) && fin[i]
                == af[i] by {
                if m0[i] <= now {
                    assert(fired@.contains(i));
                    let kk = choose|kk: int| 0 <= kk < fired@.len() && fired@[kk] == i;
                    assert(fin.contains_pair(i, (now + ivs[i as int]) as u64));
                } else {
                    assert(fin.contains_pair(i, m0[i]));
                }
            }
            assert forall|i: u64| fin.dom().contains(i) implies af.dom().contains(i) by {
                assert(m0.dom().contains(i));
                if fired@.contains(i) {
                    let kk = choose|kk: int| 0 <= kk < fired@.len() && fired@[kk] == i;
                    if ivs[i as int] == 0 {
                        assert(!fin.dom().contains(fired@[kk]));
                    }
                }
            }
            assert(fin =~= af);
        }
        fired
    }
}

/// Seed a schedule: each hook becomes due at `now + initial_delay`.
pub fn schedule_hooks(hooks: &Vec<ScheduledHook>, now: u64) -> (s: Schedule)
    requires
        forall|k: int|
            0 <= k < hooks@.len() ==> hooks@[k].initial_delay.seconds <= u64::MAX - now,
    ensures
        s.wf(),
        s.intervals_seq() =~= hooks@.map_values(|h: ScheduledHook| h.interval.seconds),
        s.due_map() =~= Map::new(
            |i: u64| i < hooks@.len(),
            |i: u64| (now + hooks@[i as int].initial_delay.seconds) as u64,
        ),
{
    let mut s = Schedule::empty_with_intervals(hooks);
    let n = hooks.len();
    let mut k: usize = 0;
    while k < n
        invariant
            s.intervals_seq() =~= hooks@.map_values(|h: ScheduledHook| h.interval.seconds),
            n == hooks@.len(),
            0 <= k <= n,
            s.wf(),
            forall|j: int|
                0 <= j < n ==> hooks@[j].initial_delay.seconds <= u64::MAX - now,
            s.due_map() =~= Map::new(
                |i: u64| i < k,
                |i: u64| (now + hooks@[i as int].initial_delay.seconds) as u64,
            ),
        decreases n - k,
    {
        s.push_seed(k as u64, now, hooks[k].initial_delay.seconds);
        k += 1;
    }
    s
}

impl Schedule {
    /// Make the hook `index` due at `now + delay`.
    fn push_seed(&mut self, index: u64, now: u64, delay: u64)
        requires
            old(self).wf(),
            delay <= u64::MAX - now,
            index < old(self).intervals_seq().len(),
        ensures
            final(self).wf(),
            final(self).intervals_seq() == old(self).intervals_seq(),
            final(self).due_map() == old(self).due_map().insert(index, (now + delay) as u64),
    {
        pq_push(&mut self.queue, index, now + delay);
    }
}

// ---------------------------------------------------------------------------
// Laws of the tick transition.
// ---------------------------------------------------------------------------

/// Cadence drifts from the fire time: a recurring hook fired at `now` is
/// next due at `now + interval`, wherever on the grid of its interval the
/// tick fell.
pub proof fn lemma_cadence_from_fire_time(m: Map<u64, u64>, ivs: Seq<u64>, now: u64, i: u64)
    requires
        m.dom().contains(i),
        m[i] <= now,
        i < ivs.len(),
        ivs[i as int] > 0,
        ivs[i as int] <= u64::MAX - now,
    ensures
        spec_after_fire(m, ivs, now).dom().contains(i),
        spec_after_fire(m, ivs, now)[i] == now + ivs[i as int],
{
}

/// A fired one-shot hook leaves the schedule for good.
pub proof fn lemma_one_shot_removed(m: Map<u64, u64>, ivs: Seq<u64>, now: u64, i: u64)
    requires
        i < ivs.len(),
        ivs[i as int] == 0,
        m.dom().contains(i),
        m[i] <= now,
    ensures
        !spec_after_fire(m, ivs, now).dom().contains(i),
{
}

/// A tick never schedules a hook that was not pending.
pub proof fn lemma_no_resurrection(m: Map<u64, u64>, ivs: Seq<u64>, now: u64, i: u64)
    requires
        !m.dom().contains(i),
    ensures
        !spec_after_fire(m, ivs, now).dom().contains(i),
{
}

/// How often hook `i` fires when ticks at the given times hit the due map
/// `m` one after the other.
pub open spec fn spec_fire_count(m: Map<u64, u64>, ivs: Seq<u64>, ticks: Seq<u64>, i: u64) -> int
    decreases ticks.len(),
{
    if ticks.len() == 0 {
        0
    } else {
        (if spec_due_set(m, ticks[0]).contains(i) {
            1int
        } else {
            0int
        }) + spec_fire_count(
            spec_after_fire(m, ivs, ticks[0]),
            ivs,
            ticks.subrange(1, ticks.len() as int),
            i,
        )
    }
}

/// A hook that is not pending never fires, however long the run.
pub proof fn lemma_absent_never_fires(m: Map<u64, u64>, ivs: Seq<u64>, ticks: Seq<u64>, i: u64)
    requires
        !m.dom().contains(i),
    ensures
        spec_fire_count(m, ivs, ticks, i) == 0,
    decreases ticks.len(),
{
    if ticks.len() > 0 {
        lemma_no_resurrection(m, ivs, ticks[0], i);
        lemma_absent_never_fires(
            spec_after_fire(m, ivs, ticks[0]),
            ivs,
            ticks.subrange(1, ticks.len() as int),
            i,
        );
    }
}

/// A one-shot hook fires at most once over an arbitrarily long run of
/// ticks.
pub proof fn lemma_one_shot_fires_at_most_once(
    m: Map<u64, u64>,
    ivs: Seq<u64>,
    ticks: Seq<u64>,
    i: u64,
)
    requires
        i < ivs.len(),
        ivs[i as int] == 0,
    ensures
        spec_fire_count(m, ivs, ticks, i) <= 1,
    decreases ticks.len(),
{
    if ticks.len() > 0 {
        let m1 = spec_after_fire(m, ivs, ticks[0]);
        let rest = ticks.subrange(1, ticks.len() as int);
        if spec_due_set(m, ticks[0]).contains(i) {
            lemma_one_shot_removed(m, ivs, ticks[0], i);
            lemma_absent_never_fires(m1, ivs, rest, i);
        } else {
            lemma_one_shot_fires_at_most_once(m1, ivs, rest, i);
        }
    }
}

} // verus!

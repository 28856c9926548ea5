//! The decisions of one supervised run, as a state machine: the caller
//! performs the outside work of each step it is handed back, such as
//! spawning commands or sleeping a tick, and reports the outcome as the
//! next event.
//!
//! A run checks the startup hooks one by one and aborts on the first
//! failing one; once the app is launched, each elapsed second records one
//! second of usage and fires the time hooks that have come due.
use vstd::prelude::*;
use crate::schedule::Schedule;
use crate::schedule::ScheduledHook;
use crate::schedule::schedule_hooks;
use crate::schedule::spec_after_fire;

verus! {

/// Where the run stands.
#[derive(Clone, Copy, Debug, PartialEq, Eq, Structural)]
pub enum RunPhase {
    /// Nothing has happened yet.
    Init,
    /// Startup hook `next` is being run.
    Startup { next: usize },
    /// All startup hooks passed; the app is being launched.
    Launching,
    /// The app runs and is being supervised, one tick per second.
    Monitoring,
    /// The run is over, or was aborted by a startup hook.
    Done,
}

/// What the caller reports into the state machine.
#[derive(Clone, Copy, Debug, PartialEq, Eq, Structural)]
pub enum RunEvent {
    /// The run begins.
    Started,
    /// The startup hook that was being run has exited.
    StartupHookExited { success: bool },
    /// The app has been spawned, at this many seconds past some chosen
    /// time origin.
    AppLaunched { now: u64 },
    /// One second of supervised runtime has elapsed.
    Tick { now: u64 },
    /// The supervised app has exited.
    AppExited,
}

/// What the caller must do next.
#[derive(Debug, PartialEq)]
pub enum RunStep {
    /// Run startup hook `index` and report how it exited.
    StartStartupHook { index: usize },
    /// All startup hooks passed: launch the app.
    StartApp,
    /// Startup hook `index` failed; do not launch the app.
    AbortedByStartupHook { index: usize },
    /// Record one second of usage at `now`, and fire the time hooks whose
    /// indices are listed, in due-time order.
    RecordAndFire { now: u64, fired: Vec<u64> },
    /// The app is under supervision; report ticks and its exit.
    Supervise,
    /// The run is over.
    Finished,
    /// The event does not belong to the current phase; nothing changed.
    Rejected,
}

/// The state of one supervised run.
pub struct RunState {
    pub phase: RunPhase,
    pub n_startup: usize,
    pub hooks: Vec<ScheduledHook>,
    pub schedule: Schedule,
}

/// Which events each phase consumes.
pub open spec fn accepts(phase: RunPhase, event: RunEvent) -> bool {
    match (phase, event) {
        (RunPhase::Init, RunEvent::Started) => true,
        (RunPhase::Startup { .. }, RunEvent::StartupHookExited { .. }) => true,
        (RunPhase::Launching, RunEvent::AppLaunched { .. }) => true,
        (RunPhase::Monitoring, RunEvent::Tick { .. }) => true,
        (RunPhase::Monitoring, RunEvent::AppExited) => true,
        _ => false,
    }
}

impl RunState {
    /// The pending time-hook firings: hook index to due time.
    pub open spec fn due_map(self) -> Map<u64, u64> {
        self.schedule.due_map()
    }

    /// The recurrence interval of each time hook.
    pub open spec fn intervals(self) -> Seq<u64> {
        self.hooks@.map_values(|h: ScheduledHook| h.interval.seconds)
    }

    pub open spec fn wf(self) -> bool {
        &&& self.schedule.wf()
        &&& self.schedule.intervals_seq() =~= self.intervals()
        &&& (self.phase matches RunPhase::Startup { next } ==> next < self.n_startup)
    }

    /// A run over an app with `n_startup` startup hooks and the given time
    /// hooks, with nothing scheduled yet.
    pub fn new(n_startup: usize, hooks: Vec<ScheduledHook>) -> (s: RunState)
        ensures
            s.wf(),
            s.phase == RunPhase::Init,
            s.n_startup == n_startup,
            s.hooks == hooks,
            s.due_map() == crate::schedule::no_pending(),
    {
        let schedule = Schedule::empty_with_intervals(&hooks);
        RunState { phase: RunPhase::Init, n_startup, hooks, schedule }
    }
}

/// Feed one event into the run and learn what to do next.
///
/// The contract walks the whole machine: which phase follows which event,
/// what is scheduled when the app launches, and exactly which hooks fire
/// on a tick. An event that does not belong to the current phase is
/// rejected and changes nothing.
pub fn run(state: &mut RunState, event: RunEvent) -> (step: RunStep)
    requires
        old(state).wf(),
        event matches RunEvent::AppLaunched { now } ==> forall|k: int|
            0 <= k < old(state).hooks@.len() ==> old(state).hooks@[k].initial_delay.seconds
                <= u64::MAX - now,
        event matches RunEvent::Tick { now } ==> forall|k: int|
            0 <= k < old(state).hooks@.len() ==> old(state).hooks@[k].interval.seconds <= u64::MAX
                - now,
    ensures
        final(state).wf(),
        final(state).n_startup == old(state).n_startup,
        final(state).hooks == old(state).hooks,
        !accepts(old(state).phase, event) ==> *final(state) == *old(state) && step
            == RunStep::Rejected,
        (old(state).phase == RunPhase::Init && event == RunEvent::Started) ==> (
        final(state).due_map() == old(state).due_map() && (if old(state).n_startup > 0 {
            final(state).phase == (RunPhase::Startup { next: 0 }) && step
                == (RunStep::StartStartupHook { index: 0 })
        } else {
            final(state).phase == RunPhase::Launching && step == RunStep::StartApp
        })),
        old(state).phase matches RunPhase::Startup { next } ==> (event matches
            RunEvent::StartupHookExited { success } ==> (final(state).due_map()
            == old(state).due_map() && (if !success {
            final(state).phase == RunPhase::Done && step == (RunStep::AbortedByStartupHook {
                index: next,
            })
        } else if next + 1 < old(state).n_startup {
            final(state).phase == (RunPhase::Startup { next: (next + 1) as usize }) && step
                == (RunStep::StartStartupHook { index: (next + 1) as usize })
        } else {
            final(state).phase == RunPhase::Launching && step == RunStep::StartApp
        }))),
        old(state).phase == RunPhase::Launching ==> (event matches RunEvent::AppLaunched { now }
            ==> (final(state).phase == RunPhase::Monitoring && step == RunStep::Supervise
            && final(state).due_map() =~= Map::new(
            |i: u64| i < old(state).hooks@.len(),
            |i: u64| (now + old(state).hooks@[i as int].initial_delay.seconds) as u64,
        ))),
        old(state).phase == RunPhase::Monitoring ==> (event matches RunEvent::Tick { now } ==> (
        final(state).phase == RunPhase::Monitoring && final(state).due_map() == spec_after_fire(
            old(state).due_map(),
            old(state).intervals(),
            now,
        ) && (step matches RunStep::RecordAndFire { now: at, fired } && at == now && (forall|k: int|
            0 <= k < fired@.len() ==> old(state).due_map().dom().contains(fired@[k])
                && old(state).due_map()[fired@[k]] <= now) && (forall|i: u64|
            old(state).due_map().dom().contains(i) && old(state).due_map()[i] <= now
                ==> fired@.contains(i)) && (forall|k1: int, k2: int|
            0 <= k1 < k2 < fired@.len() ==> fired@[k1] != fired@[k2]) && (forall|k1: int, k2: int|
            0 <= k1 < k2 < fired@.len() ==> old(state).due_map()[fired@[k1]]
                <= old(state).due_map()[fired@[k2]])))),
        (old(state).phase == RunPhase::Monitoring && event == RunEvent::AppExited) ==> (
        final(state).phase == RunPhase::Done && step == RunStep::Finished && final(state).due_map()
            == old(state).due_map()),
{
    let phase = state.phase;
    match phase {
        RunPhase::Init => match event {
            RunEvent::Started => {
                if state.n_startup > 0 {
                    state.phase = RunPhase::Startup { next: 0 };
                    RunStep::StartStartupHook { index: 0 }
                } else {
                    state.phase = RunPhase::Launching;
                    RunStep::StartApp
                }
            }
            _ => RunStep::Rejected,
        },
        RunPhase::Startup { next } => match event {
            RunEvent::StartupHookExited { success } => {
                if !success {
                    state.phase = RunPhase::Done;
                    RunStep::AbortedByStartupHook { index: next }
                } else if next + 1 < state.n_startup {
                    state.phase = RunPhase::Startup { next: next + 1 };
                    RunStep::StartStartupHook { index: next + 1 }
                } else {
                    state.phase = RunPhase::Launching;
                    RunStep::StartApp
                }
            }
            _ => RunStep::Rejected,
        },
        RunPhase::Launching => match event {
            RunEvent::AppLaunched { now } => {
                state.schedule = schedule_hooks(&state.hooks, now);
                state.phase = RunPhase::Monitoring;
                RunStep::Supervise
            }
            _ => RunStep::Rejected,
        },
        RunPhase::Monitoring => match event {
            RunEvent::Tick { now } => {
                proof {
                    assert forall|i: u64|
                        state.schedule.due_map().dom().contains(i) implies state.schedule.intervals_seq()[i as int]
                        <= u64::MAX - now by {
                        assert(i < state.schedule.intervals_seq().len());
                        assert(state.schedule.intervals_seq() =~= state.intervals());
                        assert(state.intervals()[i as int] == state.hooks@[i as int].interval.seconds);
                        assert(state.hooks@[i as int].interval.seconds <= u64::MAX - now);
                    }
                }
                let fired = state.schedule.fire_due(now);
                RunStep::RecordAndFire { now, fired }
            }
            RunEvent::AppExited => {
                state.phase = RunPhase::Done;
                RunStep::Finished
            }
            _ => RunStep::Rejected,
        },
        RunPhase::Done => RunStep::Rejected,
    }
}

} // verus!

use leakbuster::cmd::run::run;
use leakbuster::cmd::run::RunEvent;
use leakbuster::cmd::run::RunState;
use leakbuster::cmd::run::RunStep;
use leakbuster::expressions::parser::Duration;
use leakbuster::schedule::ScheduledHook;

fn hook(delay: u64, interval: u64) -> ScheduledHook {
    ScheduledHook {
        cmd: "hook".to_string(),
        args: vec![],
        initial_delay: Duration { seconds: delay },
        interval: Duration { seconds: interval },
    }
}

#[test]
fn a_full_run_walks_all_phases() {
    let mut state = RunState::new(2, vec![hook(0, 0)]);
    assert_eq!(RunStep::StartStartupHook { index: 0 }, run(&mut state, RunEvent::Started));
    assert_eq!(
        RunStep::StartStartupHook { index: 1 },
        run(&mut state, RunEvent::StartupHookExited { success: true })
    );
    assert_eq!(
        RunStep::StartApp,
        run(&mut state, RunEvent::StartupHookExited { success: true })
    );
    assert_eq!(RunStep::Supervise, run(&mut state, RunEvent::AppLaunched { now: 100 }));
    // the one-shot time hook, due at 100, fires on the first tick
    assert_eq!(
        RunStep::RecordAndFire { now: 101, fired: vec![0] },
        run(&mut state, RunEvent::Tick { now: 101 })
    );
    // and never again
    assert_eq!(
        RunStep::RecordAndFire { now: 102, fired: vec![] },
        run(&mut state, RunEvent::Tick { now: 102 })
    );
    assert_eq!(RunStep::Finished, run(&mut state, RunEvent::AppExited));
}

#[test]
fn a_failing_startup_hook_aborts_the_run() {
    let mut state = RunState::new(1, vec![]);
    assert_eq!(RunStep::StartStartupHook { index: 0 }, run(&mut state, RunEvent::Started));
    assert_eq!(
        RunStep::AbortedByStartupHook { index: 0 },
        run(&mut state, RunEvent::StartupHookExited { success: false })
    );
    // the run is over; further events are rejected
    assert_eq!(RunStep::Rejected, run(&mut state, RunEvent::Tick { now: 1 }));
    assert_eq!(RunStep::Rejected, run(&mut state, RunEvent::AppExited));
}

#[test]
fn without_startup_hooks_the_app_launches_at_once() {
    let mut state = RunState::new(0, vec![hook(5, 10)]);
    assert_eq!(RunStep::StartApp, run(&mut state, RunEvent::Started));
    assert_eq!(RunStep::Supervise, run(&mut state, RunEvent::AppLaunched { now: 0 }));
    assert_eq!(
        RunStep::RecordAndFire { now: 4, fired: vec![] },
        run(&mut state, RunEvent::Tick { now: 4 })
    );
    // fired late at 7, the hook drifts to 17
    assert_eq!(
        RunStep::RecordAndFire { now: 7, fired: vec![0] },
        run(&mut state, RunEvent::Tick { now: 7 })
    );
    assert_eq!(
        RunStep::RecordAndFire { now: 16, fired: vec![] },
        run(&mut state, RunEvent::Tick { now: 16 })
    );
    assert_eq!(
        RunStep::RecordAndFire { now: 17, fired: vec![0] },
        run(&mut state, RunEvent::Tick { now: 17 })
    );
    assert_eq!(RunStep::Finished, run(&mut state, RunEvent::AppExited));
}

#[test]
fn events_outside_their_phase_are_rejected() {
    let mut state = RunState::new(1, vec![]);
    assert_eq!(RunStep::Rejected, run(&mut state, RunEvent::AppExited));
    assert_eq!(RunStep::Rejected, run(&mut state, RunEvent::Tick { now: 0 }));
    assert_eq!(
        RunStep::Rejected,
        run(&mut state, RunEvent::StartupHookExited { success: true })
    );
    assert_eq!(RunStep::StartStartupHook { index: 0 }, run(&mut state, RunEvent::Started));
    assert_eq!(RunStep::Rejected, run(&mut state, RunEvent::Started));
}

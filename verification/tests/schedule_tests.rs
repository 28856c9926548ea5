use leakbuster::expressions::parser::Duration;
use leakbuster::schedule::schedule_hooks;
use leakbuster::schedule::Schedule;
use leakbuster::schedule::ScheduledHook;

fn hook(delay: u64, interval: u64) -> ScheduledHook {
    ScheduledHook {
        cmd: "hook".to_string(),
        args: vec![],
        initial_delay: Duration { seconds: delay },
        interval: Duration { seconds: interval },
    }
}

#[test]
fn empty_schedule_has_nothing_due() {
    let hooks: Vec<ScheduledHook> = vec![];
    let mut s = schedule_hooks(&hooks, 0);
    assert_eq!(None, s.next_due());
    assert_eq!(Vec::<u64>::new(), s.fire_due(1_000_000));
}

#[test]
fn seeding_schedules_at_now_plus_initial_delay() {
    let hooks = vec![hook(10, 60), hook(3, 0)];
    let s = schedule_hooks(&hooks, 100);
    // the soonest due hook is the one with the shorter delay
    assert_eq!(Some((1, 103)), s.next_due());
}

#[test]
fn nothing_fires_before_its_due_time() {
    let hooks = vec![hook(5, 10)];
    let mut s = schedule_hooks(&hooks, 0);
    assert_eq!(Vec::<u64>::new(), s.fire_due(4));
    assert_eq!(Some((0, 5)), s.next_due());
}

#[test]
fn cadence_drifts_from_the_actual_fire_time() {
    // a hook with a 10 s interval, first due at t=10, fired late at t=12:
    // it is rescheduled for t=22, not back onto the 10 s grid at t=20
    let hooks = vec![hook(10, 10)];
    let mut s = schedule_hooks(&hooks, 0);
    assert_eq!(vec![0], s.fire_due(12));
    assert_eq!(Some((0, 22)), s.next_due());
}

#[test]
fn one_shot_hook_fires_exactly_once() {
    let hooks = vec![hook(5, 0)];
    let mut s = schedule_hooks(&hooks, 0);
    assert_eq!(Vec::<u64>::new(), s.fire_due(4));
    assert_eq!(vec![0], s.fire_due(5));
    // however many ticks elapse, it never fires again
    for now in 6..300 {
        assert_eq!(Vec::<u64>::new(), s.fire_due(now));
    }
    assert_eq!(None, s.next_due());
}

#[test]
fn due_hooks_fire_in_due_time_order() {
    let hooks = vec![hook(30, 0), hook(10, 0), hook(20, 0)];
    let mut s = schedule_hooks(&hooks, 0);
    assert_eq!(vec![1, 2, 0], s.fire_due(30));
}

#[test]
fn recurring_hooks_keep_coming_back() {
    let hooks = vec![hook(0, 10)];
    let mut s = schedule_hooks(&hooks, 0);
    assert_eq!(vec![0], s.fire_due(0));
    assert_eq!(Some((0, 10)), s.next_due());
    assert_eq!(Vec::<u64>::new(), s.fire_due(9));
    assert_eq!(vec![0], s.fire_due(10));
    assert_eq!(Some((0, 20)), s.next_due());
}

#[test]
fn an_empty_schedule_can_be_built_without_a_start_time() {
    let hooks = vec![hook(1, 2)];
    let s = Schedule::empty_with_intervals(&hooks);
    assert_eq!(None, s.next_due());
}

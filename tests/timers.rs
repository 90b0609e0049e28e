use azul_core::ids::{IdCounter, TimerId};
use azul_core::timer::{
    aggregate_redraw, Duration, Instant, TerminateTimer, Timer, TimerDecision, Timers,
    UpdateScreen,
};
use std::cell::Cell;

fn at(ms: u64) -> Instant {
    Instant::from_millis(ms)
}

#[test]
fn delayed_interval_timer_fires_on_schedule() {
    let t0 = 1000;
    let mut timer = Timer::created_at(5u32, at(t0))
        .with_delay(Duration::from_millis(100))
        .with_interval(Duration::from_millis(50));
    let calls = Cell::new(0u32);
    let call = |c: u32| {
        assert_eq!(c, 5);
        calls.set(calls.get() + 1);
        (UpdateScreen::Redraw, TerminateTimer::Continue)
    };
    assert_eq!(timer.invoke_at(at(t0 + 90), call), (UpdateScreen::DontRedraw, TerminateTimer::Continue));
    assert_eq!(calls.get(), 0);
    assert_eq!(timer.invoke_at(at(t0 + 150), call), (UpdateScreen::Redraw, TerminateTimer::Continue));
    assert_eq!(calls.get(), 1);
    assert_eq!(timer.last_run, Some(at(t0 + 150)));
    assert_eq!(timer.invoke_at(at(t0 + 180), call), (UpdateScreen::DontRedraw, TerminateTimer::Continue));
    assert_eq!(calls.get(), 1);
    assert_eq!(timer.invoke_at(at(t0 + 210), call), (UpdateScreen::Redraw, TerminateTimer::Continue));
    assert_eq!(calls.get(), 2);
    assert_eq!(timer.last_run, Some(at(t0 + 210)));
}

#[test]
fn timed_out_timer_terminates_without_running() {
    let t0 = 500;
    let mut timer = Timer::created_at(1u32, at(t0)).with_timeout(Duration::from_millis(200));
    let calls = Cell::new(0u32);
    let call = |_c: u32| {
        calls.set(calls.get() + 1);
        (UpdateScreen::Redraw, TerminateTimer::Continue)
    };
    assert_eq!(timer.decide(at(t0 + 250)), TimerDecision::Expire);
    assert_eq!(timer.invoke_at(at(t0 + 250), call), (UpdateScreen::DontRedraw, TerminateTimer::Terminate));
    assert_eq!(calls.get(), 0);
    assert_eq!(timer.last_run, None);

    let mut timers = Timers::new();
    timers.add_timer(TimerId { id: 4 }, timer);
    let outcomes = timers.run_timers_at(at(t0 + 250), call);
    assert_eq!(outcomes, vec![(TimerId { id: 4 }, (UpdateScreen::DontRedraw, TerminateTimer::Terminate))]);
    assert_eq!(calls.get(), 0);
    assert!(!timers.has_timer(&TimerId { id: 4 }));
}

#[test]
fn timer_within_timeout_still_runs() {
    let mut timer = Timer::created_at(1u32, at(0)).with_timeout(Duration::from_millis(200));
    assert_eq!(timer.decide(at(200)), TimerDecision::Fire);
    let r = timer.invoke_at(at(200), |_c: u32| (UpdateScreen::Redraw, TerminateTimer::Continue));
    assert_eq!(r, (UpdateScreen::Redraw, TerminateTimer::Continue));
}

#[test]
fn timer_without_interval_ignores_its_delay() {
    let timer = Timer::created_at(1u32, at(1000)).with_delay(Duration::from_millis(100));
    assert_eq!(timer.decide(at(1010)), TimerDecision::Fire);
}

#[test]
fn continuation_runs_once_in_the_next_frame() {
    let mut counter = IdCounter::new();
    let mut timers: Timers<u32> = Timers::new();
    let first = TimerId::new(&mut counter);
    timers.add_timer(first, Timer::created_at(1, at(0)).with_interval(Duration::from_millis(1000)));
    // frame N: the task finished, its continuation moves into the timers
    let id = timers.add_continuation(&mut counter, Timer::created_at(2, at(50)));
    assert_eq!(id, TimerId { id: 1 });
    assert!(timers.has_timer(&id));
    let calls = Cell::new(0u32);
    let call = |c: u32| {
        if c == 2 {
            calls.set(calls.get() + 1);
            (UpdateScreen::Redraw, TerminateTimer::Terminate)
        } else {
            (UpdateScreen::DontRedraw, TerminateTimer::Continue)
        }
    };
    // frame N + 1
    let outcomes = timers.run_timers_at(at(66), call);
    assert_eq!(calls.get(), 1);
    assert_eq!(
        outcomes,
        vec![
            (first, (UpdateScreen::DontRedraw, TerminateTimer::Continue)),
            (id, (UpdateScreen::Redraw, TerminateTimer::Terminate)),
        ]
    );
    assert_eq!(aggregate_redraw(&outcomes), UpdateScreen::Redraw);
    assert!(!timers.has_timer(&id));
    // frame N + 2: it is gone
    let outcomes = timers.run_timers_at(at(82), call);
    assert_eq!(calls.get(), 1);
    assert_eq!(outcomes.len(), 1);
    assert_eq!(aggregate_redraw(&outcomes), UpdateScreen::DontRedraw);
}

#[test]
fn timers_are_kept_in_id_order_and_replaced() {
    let mut timers: Timers<u32> = Timers::new();
    timers.add_timer(TimerId { id: 5 }, Timer::created_at(5, at(0)));
    timers.add_timer(TimerId { id: 2 }, Timer::created_at(2, at(0)));
    timers.add_timer(TimerId { id: 9 }, Timer::created_at(9, at(0)));
    timers.add_timer(TimerId { id: 5 }, Timer::created_at(55, at(0)));
    let ids: Vec<usize> = timers.entries.iter().map(|e| e.0.id).collect();
    assert_eq!(ids, vec![2, 5, 9]);
    assert_eq!(timers.get_timer(&TimerId { id: 5 }).map(|t| t.callback), Some(55));
    assert_eq!(timers.get_timer(&TimerId { id: 3 }).map(|t| t.callback), None);
    let removed = timers.delete_timer(&TimerId { id: 2 });
    assert_eq!(removed.map(|t| t.callback), Some(2));
    assert!(timers.delete_timer(&TimerId { id: 2 }).is_none());
    assert!(!timers.has_timer(&TimerId { id: 2 }));
    let order = Cell::new(Vec::new());
    timers.run_timers_at(at(1), |c: u32| {
        let mut v = order.take();
        v.push(c);
        order.set(v);
        (UpdateScreen::DontRedraw, TerminateTimer::Continue)
    });
    assert_eq!(order.take(), vec![55, 9]);
}

#[test]
fn timer_ids_count_up() {
    let mut counter = IdCounter::new();
    assert_eq!(TimerId::new(&mut counter), TimerId { id: 0 });
    assert_eq!(TimerId::new(&mut counter), TimerId { id: 1 });
    assert_eq!(counter.next, 2);
    assert!(counter.can_allocate());
    let full = IdCounter { next: usize::MAX };
    assert!(!full.can_allocate());
}

#[test]
fn interval_spacing_measured_from_last_run() {
    let mut timer = Timer::created_at(0u32, at(0)).with_interval(Duration::from_millis(30));
    timer.last_run = Some(at(100));
    assert_eq!(timer.decide(at(129)), TimerDecision::Wait);
    assert_eq!(timer.decide(at(130)), TimerDecision::Fire);
}

#[test]
fn zero_interval_still_waits_for_the_delay() {
    let timer = Timer::created_at(1u32, at(1000))
        .with_delay(Duration::from_millis(100))
        .with_interval(Duration::from_millis(0));
    assert_eq!(timer.decide(at(1010)), TimerDecision::Wait);
    assert_eq!(timer.decide(at(990)), TimerDecision::Wait);
    assert_eq!(timer.decide(at(1100)), TimerDecision::Fire);
}

#[test]
fn clock_going_back_does_not_fire_an_interval_timer() {
    let mut timer = Timer::created_at(1u32, at(0)).with_interval(Duration::from_millis(0));
    timer.last_run = Some(at(500));
    assert_eq!(timer.decide(at(499)), TimerDecision::Wait);
    assert_eq!(timer.decide(at(500)), TimerDecision::Fire);
}

#[test]
fn continuations_are_adopted_under_fresh_ids() {
    let mut counter = IdCounter { next: 10 };
    let mut timers: Timers<u32> = Timers::new();
    timers.add_timer(TimerId { id: 3 }, Timer::created_at(3, at(0)));
    let ids = timers.adopt_continuations(&mut counter, &vec![Timer::created_at(7, at(0)), Timer::created_at(8, at(0))]);
    assert_eq!(ids, vec![TimerId { id: 10 }, TimerId { id: 11 }]);
    assert_eq!(counter.next, 12);
    assert_eq!(timers.get_timer(&TimerId { id: 11 }).map(|t| t.callback), Some(8));
    assert_eq!(timers.get_timer(&TimerId { id: 3 }).map(|t| t.callback), Some(3));
}

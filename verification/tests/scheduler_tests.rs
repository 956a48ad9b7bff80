use pi::extension_dispatcher::HostcallOutcome;
use pi::json::Json;
use pi::scheduler::{Macrotask, Scheduler};

fn fired(task: Option<Macrotask>) -> Option<u64> {
    match task {
        Some(Macrotask::TimerFired { timer_id }) => Some(timer_id),
        _ => None,
    }
}

#[test]
fn a_timer_fires_only_after_its_time() {
    let mut scheduler = Scheduler::new(0);
    let id = scheduler.set_timeout(10).expect("id");
    assert_eq!(id, 0);
    assert!(scheduler.tick().is_none());
    scheduler.advance(9);
    assert!(scheduler.tick().is_none());
    assert!(scheduler.has_pending());
    scheduler.advance(1);
    assert_eq!(fired(scheduler.tick()), Some(id));
    assert!(scheduler.tick().is_none());
    assert!(!scheduler.has_pending());
}

#[test]
fn timers_fire_by_deadline_and_then_by_age() {
    let mut scheduler = Scheduler::new(100);
    let late = scheduler.set_timeout(30).expect("id");
    let early = scheduler.set_timeout(10).expect("id");
    let tie = scheduler.set_timeout(10).expect("id");
    let now = scheduler.set_timeout(0).expect("id");
    assert_eq!((late, early, tie, now), (0, 1, 2, 3));
    assert_eq!(fired(scheduler.tick()), Some(now));
    assert!(scheduler.tick().is_none());
    scheduler.advance(50);
    assert_eq!(scheduler.now_ms(), 150);
    assert_eq!(fired(scheduler.tick()), Some(early));
    assert_eq!(fired(scheduler.tick()), Some(tie));
    assert_eq!(fired(scheduler.tick()), Some(late));
    assert!(scheduler.tick().is_none());
}

#[test]
fn a_tick_hands_out_one_macrotask() {
    let mut scheduler = Scheduler::new(0);
    scheduler.set_timeout(0);
    scheduler.set_timeout(0);
    assert!(scheduler.tick().is_some());
    assert!(scheduler.has_pending());
    assert!(scheduler.tick().is_some());
    assert!(!scheduler.has_pending());
}

#[test]
fn a_cleared_timer_never_fires() {
    let mut scheduler = Scheduler::new(0);
    let first = scheduler.set_timeout(5).expect("id");
    let second = scheduler.set_timeout(5).expect("id");
    assert!(scheduler.clear_timeout(first));
    assert!(!scheduler.clear_timeout(first));
    assert!(!scheduler.clear_timeout(99));
    scheduler.advance(5);
    assert_eq!(fired(scheduler.tick()), Some(second));
    assert!(scheduler.tick().is_none());
    assert!(!scheduler.clear_timeout(second));
}

#[test]
fn completions_keep_their_place_before_later_timers() {
    let mut scheduler = Scheduler::new(0);
    let timer = scheduler.set_timeout(1).expect("id");
    scheduler.enqueue_hostcall_complete("call-0".to_string(), HostcallOutcome::Success(Json::Bool(true)));
    scheduler.advance(1);
    match scheduler.tick() {
        Some(Macrotask::HostcallComplete { call_id, outcome }) => {
            assert_eq!(call_id, "call-0");
            assert!(matches!(outcome, HostcallOutcome::Success(Json::Bool(true))));
        }
        other => panic!("expected the completion, got {other:?}"),
    }
    assert_eq!(fired(scheduler.tick()), Some(timer));
}

#[test]
fn the_clock_never_goes_back_nor_over() {
    let mut scheduler = Scheduler::new(10);
    scheduler.advance_to(5);
    assert_eq!(scheduler.now_ms(), 10);
    scheduler.advance_to(20);
    assert_eq!(scheduler.now_ms(), 20);
    scheduler.advance(u64::MAX);
    assert_eq!(scheduler.now_ms(), u64::MAX);
    let id = scheduler.set_timeout(7).expect("id");
    assert_eq!(fired(scheduler.tick()), Some(id));
}

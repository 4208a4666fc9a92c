use gamegirl::ggc::scheduling::GGEvent;
use gamegirl::scheduler::{Scheduler, REBASE_THRESHOLD};

#[test]
fn new_scheduler_is_at_time_zero() {
    let s: Scheduler<GGEvent> = Scheduler::new();
    assert_eq!(0, s.now());
    let d: Scheduler<GGEvent> = Scheduler::default();
    assert_eq!(0, d.now());
}

#[test]
fn events_come_out_earliest_first() {
    let mut s: Scheduler<GGEvent> = Scheduler::new();
    s.schedule(GGEvent::TimerOverflow, 30);
    s.schedule(GGEvent::DMAFinish, 10);
    s.schedule(GGEvent::GdmaTransfer, 20);
    assert!(s.get_next_pending().is_none());
    s.advance(25);
    let first = s.get_next_pending().unwrap();
    assert_eq!(GGEvent::DMAFinish, first.kind);
    assert_eq!(15, first.late_by);
    let second = s.get_next_pending().unwrap();
    assert_eq!(GGEvent::GdmaTransfer, second.kind);
    assert_eq!(5, second.late_by);
    assert!(s.get_next_pending().is_none());
}

#[test]
fn same_time_events_come_out_last_scheduled_first() {
    let mut s: Scheduler<GGEvent> = Scheduler::new();
    s.schedule(GGEvent::TmaReload, 4);
    s.schedule(GGEvent::TimerOverflow, 4);
    s.advance(4);
    assert_eq!(GGEvent::TimerOverflow, s.get_next_pending().unwrap().kind);
    assert_eq!(GGEvent::TmaReload, s.get_next_pending().unwrap().kind);
}

#[test]
fn zero_delay_event_is_due_at_once() {
    let mut s: Scheduler<GGEvent> = Scheduler::new();
    s.schedule(GGEvent::PauseEmulation, 100);
    s.schedule(GGEvent::HdmaTransferStep, 0);
    let e = s.get_next_pending().unwrap();
    assert_eq!(GGEvent::HdmaTransferStep, e.kind);
    assert_eq!(0, e.late_by);
}

#[test]
fn pop_jumps_to_event_time() {
    let mut s: Scheduler<GGEvent> = Scheduler::new();
    s.schedule(GGEvent::PauseEmulation, 500);
    s.schedule(GGEvent::DMAFinish, 200);
    let e = s.pop();
    assert_eq!(GGEvent::DMAFinish, e.kind);
    assert_eq!(0, e.late_by);
    assert_eq!(200, s.now());
    let e = s.pop();
    assert_eq!(GGEvent::PauseEmulation, e.kind);
    assert_eq!(500, s.now());
}

#[test]
fn cancel_removes_every_event_of_kind() {
    let mut s: Scheduler<GGEvent> = Scheduler::new();
    s.schedule(GGEvent::TimerOverflow, 5);
    s.schedule(GGEvent::PauseEmulation, 50);
    s.schedule(GGEvent::TimerOverflow, 10);
    s.cancel(GGEvent::TimerOverflow);
    s.advance(40);
    assert!(s.get_next_pending().is_none());
    s.advance(10);
    assert_eq!(GGEvent::PauseEmulation, s.get_next_pending().unwrap().kind);
}

#[test]
fn timer_is_rebased_before_overflow() {
    let mut s: Scheduler<GGEvent> = Scheduler::new();
    s.advance(REBASE_THRESHOLD + 10);
    s.schedule(GGEvent::PauseEmulation, 20);
    assert_eq!(10, s.now());
    s.advance(20);
    let e = s.get_next_pending().unwrap();
    assert_eq!(GGEvent::PauseEmulation, e.kind);
    assert_eq!(0, e.late_by);
}

#[test]
fn rebase_moves_every_event_back() {
    let mut s: Scheduler<GGEvent> = Scheduler::new();
    s.advance(REBASE_THRESHOLD - 5);
    s.schedule(GGEvent::DMAFinish, 100);
    s.advance(10);
    // The new event runs after all others: everything moves back.
    s.schedule(GGEvent::PauseEmulation, 200);
    assert_eq!(5, s.now());
    s.advance(90);
    let e = s.get_next_pending().unwrap();
    assert_eq!(GGEvent::DMAFinish, e.kind);
    assert_eq!(0, e.late_by);
    s.advance(110);
    let e = s.get_next_pending().unwrap();
    assert_eq!(GGEvent::PauseEmulation, e.kind);
    assert_eq!(0, e.late_by);
}

use timer_future::cell::{Progress, SharedState};
use timer_future::delay::Delay;
use timer_future::timer::TimerFuture;

#[test]
fn fresh_cell_is_not_completed() {
    let cell: SharedState<u32> = SharedState::new();
    assert!(!cell.is_completed());
}

#[test]
fn drive_before_fire_parks_handle() {
    let mut cell: SharedState<u32> = SharedState::new();
    assert_eq!(cell.poll(7), Progress::NotReadyYet);
    assert!(!cell.is_completed());
    assert_eq!(cell.fire(), Some(7));
    assert!(cell.is_completed());
}

#[test]
fn latest_parked_handle_is_the_one_handed_out() {
    let mut cell: SharedState<u32> = SharedState::new();
    assert_eq!(cell.poll(1), Progress::NotReadyYet);
    assert_eq!(cell.poll(2), Progress::NotReadyYet);
    assert_eq!(cell.fire(), Some(2));
}

#[test]
fn fire_before_any_drive_then_done_at_once() {
    let mut timer: TimerFuture<u32> = TimerFuture::new(Delay::from_secs(5));
    assert_eq!(timer.fire(), None);
    assert!(timer.is_completed());
    assert_eq!(timer.poll(3), Progress::Done);
}

#[test]
fn driven_once_then_fired_then_done_repeatedly() {
    let mut timer: TimerFuture<u32> = TimerFuture::new(Delay::from_millis(10));
    assert_eq!(timer.poll(4), Progress::NotReadyYet);
    assert_eq!(timer.fire(), Some(4));
    assert_eq!(timer.poll(5), Progress::Done);
    assert_eq!(timer.poll(6), Progress::Done);
    assert!(timer.is_completed());
    assert_eq!(timer.fire(), None);
}

#[test]
fn timer_keeps_its_duration() {
    let mut timer: TimerFuture<u32> = TimerFuture::new(Delay::from_millis(2500));
    assert_eq!(timer.poll(1), Progress::NotReadyYet);
    let _ = timer.fire();
    assert_eq!(timer.duration(), Delay::from_millis(2500));
    assert_eq!(timer.duration().as_nanos(), 2_500_000_000);
}

#[test]
fn delay_from_millis_splits_seconds() {
    let d = Delay::from_millis(1500);
    assert_eq!(d.as_secs(), 1);
    assert_eq!(d.subsec_nanos(), 500_000_000);
    assert_eq!(d.as_nanos(), 1_500_000_000);
}

#[test]
fn delay_new_and_from_secs() {
    let d = Delay::new(2, 5);
    assert_eq!(d.as_secs(), 2);
    assert_eq!(d.subsec_nanos(), 5);
    assert_eq!(d.as_nanos(), 2_000_000_005);
    assert_eq!(Delay::from_secs(5).as_nanos(), 5_000_000_000);
    assert_eq!(Delay::from_millis(0).as_nanos(), 0);
}

#[test]
fn delay_largest_span() {
    let d = Delay::new(u64::MAX, 999_999_999);
    assert_eq!(d.as_nanos(), (u64::MAX as u128) * 1_000_000_000 + 999_999_999);
    let m = Delay::from_millis(u64::MAX);
    assert_eq!(m.as_nanos(), (u64::MAX as u128) * 1_000_000);
}

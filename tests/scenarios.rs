use timer_future::cell::Progress;
use timer_future::delay::Delay;
use timer_future::executor::{Executor, Step};
use timer_future::timer::TimerFuture;

/// Runs timer-only computations on a simulated clock. Each computation is
/// the index of the timer it awaits. Returns, per task, the clock reading
/// at which its drive reported `Done`, and the number of turns taken.
fn run_timers(
    delays: &[Delay],
    fire_first: bool,
    turn_limit: usize,
) -> (Vec<Option<u128>>, Vec<u128>, usize) {
    let mut timers: Vec<TimerFuture<usize>> = delays.iter().map(|d| TimerFuture::new(*d)).collect();
    let mut fired_at: Vec<Option<u128>> = vec![None; delays.len()];
    let mut done_at: Vec<Option<u128>> = vec![None; delays.len()];
    let mut ex: Executor<usize> = Executor::new(16);
    for k in 0..delays.len() {
        assert_eq!(ex.spawn(k), Ok(k));
    }
    ex.close();
    let mut now: u128 = 0;
    if fire_first {
        for k in 0..timers.len() {
            if timers[k].duration().as_nanos() == 0 {
                assert_eq!(timers[k].fire(), None);
                fired_at[k] = Some(0);
            }
        }
    }
    let mut turns = 0;
    loop {
        turns += 1;
        assert!(turns <= turn_limit, "executor did not stop");
        match ex.next_step() {
            Step::Drive(id, k) => {
                let outcome = timers[k].poll(id);
                if outcome == Progress::Done {
                    assert!(done_at[id].is_none());
                    done_at[id] = Some(now);
                }
                ex.finish_drive(id, k, outcome);
            }
            Step::Stale(_) => {}
            Step::Wait => {
                let next = (0..timers.len())
                    .filter(|k| fired_at[*k].is_none())
                    .min_by_key(|k| timers[*k].duration().as_nanos())
                    .expect("waiting with no timer left to fire");
                now = timers[next].duration().as_nanos();
                fired_at[next] = Some(now);
                if let Some(w) = timers[next].fire() {
                    assert_eq!(ex.wake(w), Ok(()));
                }
            }
            Step::Exhausted => break,
        }
    }
    let fired: Vec<u128> = fired_at.into_iter().map(|t| t.unwrap()).collect();
    (done_at, fired, turns)
}

#[test]
fn zero_delay_timer_finishes_within_few_turns() {
    let (done, _, turns) = run_timers(&[Delay::from_millis(0)], false, 10);
    assert_eq!(done, vec![Some(0)]);
    assert_eq!(turns, 4);
}

#[test]
fn zero_delay_timer_fired_before_first_drive() {
    let (done, _, turns) = run_timers(&[Delay::from_millis(0)], true, 10);
    assert_eq!(done, vec![Some(0)]);
    assert_eq!(turns, 2);
}

#[test]
fn independent_timers_all_finish_after_their_delays() {
    let delays = [
        Delay::from_millis(300),
        Delay::from_millis(100),
        Delay::from_millis(200),
        Delay::new(0, 50),
    ];
    let (done, fired, _) = run_timers(&delays, false, 100);
    for k in 0..delays.len() {
        let at = done[k].expect("task did not finish");
        assert!(at >= delays[k].as_nanos());
        assert!(fired[k] >= delays[k].as_nanos());
    }
    assert_eq!(done[1], Some(100_000_000));
    assert_eq!(done[3], Some(50));
}

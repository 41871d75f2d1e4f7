use occlusion::scheduler::ReloadOutcome;
use occlusion::scheduler::ReloadScheduler;
use occlusion::scheduler::SchedulerAction;
use occlusion::scheduler::INITIAL_BACKOFF_SECS;
use occlusion::scheduler::MAX_BACKOFF_SECS;
use occlusion::FailureAction;
use occlusion::FailureResponse;
use occlusion::FailureTracker;

#[test]
fn tracker_backs_off_exponentially() {
    let mut tracker = FailureTracker::new(0, FailureAction::Shutdown);
    assert_eq!(tracker.count(), 0);
    let expected = [5u64, 10, 20, 40, 80, 160, 300, 300, 300];
    for (i, secs) in expected.iter().enumerate() {
        assert_eq!(tracker.record(), FailureResponse::Backoff(*secs));
        assert_eq!(tracker.count(), i as u32 + 1);
    }
    assert_eq!(INITIAL_BACKOFF_SECS, 5);
    assert_eq!(MAX_BACKOFF_SECS, 300);
}

#[test]
fn tracker_backoff_matches_the_formula() {
    let mut tracker = FailureTracker::new(0, FailureAction::Clear);
    for k in 1u32..=70 {
        let doubled = if k - 1 < 60 { 5u64 << (k - 1) } else { u64::MAX };
        assert_eq!(tracker.record(), FailureResponse::Backoff(doubled.min(300)));
    }
}

#[test]
fn tracker_reset_starts_over() {
    let mut tracker = FailureTracker::new(0, FailureAction::Shutdown);
    tracker.record();
    tracker.record();
    assert_eq!(tracker.count(), 2);
    tracker.reset();
    assert_eq!(tracker.count(), 0);
    assert_eq!(tracker.record(), FailureResponse::Backoff(5));
}

#[test]
fn tracker_takes_the_action_at_the_limit() {
    let mut tracker = FailureTracker::new(3, FailureAction::Clear);
    assert_eq!(tracker.record(), FailureResponse::Backoff(5));
    assert_eq!(tracker.record(), FailureResponse::Backoff(10));
    assert_eq!(tracker.record(), FailureResponse::MaxExceeded(FailureAction::Clear));
    // Without a reset the limit stays exceeded.
    assert_eq!(tracker.record(), FailureResponse::MaxExceeded(FailureAction::Clear));
    assert_eq!(tracker.count(), 4);

    let mut tracker = FailureTracker::new(1, FailureAction::Shutdown);
    assert_eq!(tracker.record(), FailureResponse::MaxExceeded(FailureAction::Shutdown));
}

#[test]
fn scheduler_is_off_without_an_interval() {
    assert!(ReloadScheduler::new(0, 0, FailureAction::Shutdown).is_none());
    assert!(ReloadScheduler::new(0, 5, FailureAction::Clear).is_none());
    let scheduler = ReloadScheduler::new(60, 0, FailureAction::Shutdown).unwrap();
    assert_eq!(scheduler.interval_secs(), 3600);
    assert_eq!(scheduler.consecutive_failures(), 0);
    let scheduler = ReloadScheduler::new(1, 0, FailureAction::Shutdown).unwrap();
    assert_eq!(scheduler.interval_secs(), 60);
    let scheduler = ReloadScheduler::new(u64::MAX, 0, FailureAction::Shutdown).unwrap();
    assert_eq!(scheduler.interval_secs(), u64::MAX);
    let scheduler = ReloadScheduler::new(u64::MAX / 60, 0, FailureAction::Shutdown).unwrap();
    assert_eq!(scheduler.interval_secs(), (u64::MAX / 60) * 60);
    let scheduler = ReloadScheduler::new(u64::MAX / 60 + 1, 0, FailureAction::Shutdown).unwrap();
    assert_eq!(scheduler.interval_secs(), u64::MAX);
}

#[test]
fn scheduler_resets_failures_after_a_success() {
    for outcome in [ReloadOutcome::Reloaded, ReloadOutcome::Unchanged] {
        let mut scheduler = ReloadScheduler::new(2, 0, FailureAction::Shutdown).unwrap();
        scheduler.step(ReloadOutcome::Failed);
        scheduler.step(ReloadOutcome::Failed);
        assert_eq!(scheduler.consecutive_failures(), 2);
        let action = scheduler.step(outcome);
        assert_eq!(scheduler.consecutive_failures(), 0);
        match outcome {
            ReloadOutcome::Reloaded => {
                assert_eq!(action, SchedulerAction::Install { wait_secs: 120 })
            }
            _ => assert_eq!(action, SchedulerAction::Keep { wait_secs: 120 }),
        }
    }
}

#[test]
fn scheduler_backs_off_then_recovers() {
    // Three failures without a limit, then a reload, then a failure again.
    let mut scheduler = ReloadScheduler::new(60, 0, FailureAction::Shutdown).unwrap();
    assert_eq!(scheduler.step(ReloadOutcome::Failed), SchedulerAction::Retry { wait_secs: 5 });
    assert_eq!(scheduler.step(ReloadOutcome::Failed), SchedulerAction::Retry { wait_secs: 10 });
    assert_eq!(scheduler.step(ReloadOutcome::Failed), SchedulerAction::Retry { wait_secs: 20 });
    assert_eq!(
        scheduler.step(ReloadOutcome::Reloaded),
        SchedulerAction::Install { wait_secs: 3600 }
    );
    assert_eq!(scheduler.step(ReloadOutcome::Failed), SchedulerAction::Retry { wait_secs: 5 });
}

#[test]
fn scheduler_clears_at_the_limit_and_starts_over() {
    let mut scheduler = ReloadScheduler::new(10, 3, FailureAction::Clear).unwrap();
    assert_eq!(scheduler.step(ReloadOutcome::Failed), SchedulerAction::Retry { wait_secs: 5 });
    assert_eq!(scheduler.step(ReloadOutcome::Failed), SchedulerAction::Retry { wait_secs: 10 });
    assert_eq!(scheduler.step(ReloadOutcome::Failed), SchedulerAction::Clear { wait_secs: 600 });
    assert_eq!(scheduler.consecutive_failures(), 0);
    assert_eq!(scheduler.step(ReloadOutcome::Failed), SchedulerAction::Retry { wait_secs: 5 });
    assert_eq!(scheduler.consecutive_failures(), 1);
}

#[test]
fn scheduler_with_a_limit_of_one_clears_every_time() {
    let mut scheduler = ReloadScheduler::new(10, 1, FailureAction::Clear).unwrap();
    assert_eq!(scheduler.step(ReloadOutcome::Failed), SchedulerAction::Clear { wait_secs: 600 });
    assert_eq!(scheduler.step(ReloadOutcome::Failed), SchedulerAction::Clear { wait_secs: 600 });
    assert_eq!(scheduler.consecutive_failures(), 0);
}

#[test]
fn scheduler_shuts_down_at_the_limit() {
    let mut scheduler = ReloadScheduler::new(10, 2, FailureAction::Shutdown).unwrap();
    assert_eq!(scheduler.step(ReloadOutcome::Failed), SchedulerAction::Retry { wait_secs: 5 });
    assert_eq!(scheduler.step(ReloadOutcome::Failed), SchedulerAction::Shutdown);
    // An unchanged source in between keeps the limit away.
    let mut scheduler = ReloadScheduler::new(10, 2, FailureAction::Shutdown).unwrap();
    for _ in 0..10 {
        assert_eq!(scheduler.step(ReloadOutcome::Failed), SchedulerAction::Retry { wait_secs: 5 });
        assert_eq!(
            scheduler.step(ReloadOutcome::Unchanged),
            SchedulerAction::Keep { wait_secs: 600 }
        );
    }
}

use codedx_client::client::JobStatus;
use codedx_client::errors::ApiError;
use codedx_client::polling::{
    poll_scripted, poll_step, BoundedAttempts, FixedInterval, PollStep,
};

#[test]
fn test_poll_reaches_completed_after_three_fetches() {
    let fetches = vec![
        Ok(JobStatus::Queued),
        Ok(JobStatus::Running),
        Ok(JobStatus::Completed),
    ];
    let outcome = poll_scripted(&FixedInterval(0), fetches).unwrap();
    assert_eq!(outcome, (Ok(JobStatus::Completed), 3));
}

#[test]
fn test_poll_strategy_abort_returns_last_status() {
    let fetches = vec![
        Ok(JobStatus::Running),
        Ok(JobStatus::Running),
        Ok(JobStatus::Running),
    ];
    let strategy = BoundedAttempts { max_iterations: 1, wait_millis: 0 };
    let outcome = poll_scripted(&strategy, fetches).unwrap();
    assert_eq!(outcome, (Ok(JobStatus::Running), 1));
}

#[test]
fn test_poll_stops_on_fetch_failure() {
    let fetches = vec![
        Ok(JobStatus::Queued),
        Err(ApiError::Protocol("connection reset".to_string())),
        Ok(JobStatus::Completed),
    ];
    let outcome = poll_scripted(&FixedInterval(0), fetches).unwrap();
    let (result, fetch_count) = outcome;
    assert_eq!(fetch_count, 2);
    assert_eq!(
        result,
        Err(ApiError::Protocol("connection reset".to_string()))
    );
}

#[test]
fn test_poll_stops_on_failed_status() {
    let fetches = vec![Ok(JobStatus::Queued), Ok(JobStatus::Failed)];
    let outcome = poll_scripted(&FixedInterval(0), fetches).unwrap();
    assert_eq!(outcome, (Ok(JobStatus::Failed), 2));
}

#[test]
fn test_poll_does_not_stop_on_cancelled() {
    let fetches = vec![Ok(JobStatus::Cancelled), Ok(JobStatus::Completed)];
    let outcome = poll_scripted(&FixedInterval(0), fetches).unwrap();
    assert_eq!(outcome, (Ok(JobStatus::Completed), 2));
}

#[test]
fn test_poll_exhausted_script_is_none() {
    let fetches = vec![Ok(JobStatus::Queued), Ok(JobStatus::Running)];
    assert!(poll_scripted(&FixedInterval(0), fetches).is_none());
}

#[test]
fn test_poll_step_decisions() {
    let fixed = FixedInterval(2000);
    assert_eq!(poll_step(&fixed, 1, &JobStatus::Completed), PollStep::Stop);
    assert_eq!(poll_step(&fixed, 1, &JobStatus::Failed), PollStep::Stop);
    assert_eq!(poll_step(&fixed, 1, &JobStatus::Queued), PollStep::Sleep(2000));
    assert_eq!(
        poll_step(&fixed, 1, &JobStatus::Cancelled),
        PollStep::Sleep(2000)
    );

    let bounded = BoundedAttempts { max_iterations: 3, wait_millis: 10 };
    assert_eq!(poll_step(&bounded, 2, &JobStatus::Running), PollStep::Sleep(10));
    assert_eq!(poll_step(&bounded, 3, &JobStatus::Running), PollStep::Stop);
}

use coop_rt::future::ExecError;
use coop_rt::future::Sleep;
use coop_rt::future::TaskPoll;

#[test]
fn sleep_zero_reports_complete_on_first_poll() {
    let s = Sleep::new(0);
    assert_eq!(s.poll(), Ok(TaskPoll::Complete));
}

#[test]
fn sleep_zero_completes_at_its_start_time() {
    let s = Sleep::starting_at(5, 0);
    assert_eq!(s.poll_at(5), Ok(TaskPoll::Complete));
}

#[test]
fn sleep_pending_before_deadline_complete_at_and_after() {
    let s = Sleep::starting_at(1000, 50);
    assert_eq!(s.poll_at(1000), Ok(TaskPoll::Pending));
    assert_eq!(s.poll_at(1049), Ok(TaskPoll::Pending));
    assert_eq!(s.poll_at(1050), Ok(TaskPoll::Complete));
    assert_eq!(s.poll_at(5000), Ok(TaskPoll::Complete));
}

#[test]
fn sleep_boundary_is_elapsed_at_least_duration() {
    let s = Sleep::starting_at(0, 10);
    assert_eq!(s.poll_at(9), Ok(TaskPoll::Pending));
    assert_eq!(s.poll_at(10), Ok(TaskPoll::Complete));
}

#[test]
fn sleep_far_deadline_reports_pending_now() {
    let s = Sleep::new(3_600_000);
    assert_eq!(s.poll(), Ok(TaskPoll::Pending));
}

#[test]
fn sleep_clock_before_start_fails_loudly() {
    let s = Sleep::starting_at(1000, 5);
    assert_eq!(s.poll_at(999), Err(ExecError::ClockUnavailable));
}

#[test]
fn sleep_poll_after_completion_is_idempotent() {
    let s = Sleep::starting_at(10, 3);
    assert_eq!(s.poll_at(13), Ok(TaskPoll::Complete));
    assert_eq!(s.poll_at(14), Ok(TaskPoll::Complete));
    assert_eq!(s.poll_at(13), Ok(TaskPoll::Complete));
}

use coop_rt::future::ExecError;
use coop_rt::future::Sleep;
use coop_rt::future::TaskPoll;
use coop_rt::runtime::block_on;
use coop_rt::runtime::spawn;
use coop_rt::runtime::wait;
use coop_rt::runtime::Job;
use coop_rt::runtime::Runtime;
use coop_rt::runtime::Task;
use coop_rt::runtime::Waker;

#[test]
fn wait_with_no_tasks_returns_immediately() {
    let mut rt = Runtime::new(1);
    assert_eq!(wait(&mut rt, 0), Ok(true));
    assert_eq!(wait(&mut rt, 1000), Ok(true));
    assert_eq!(rt.live_tasks(), 0);
}

#[test]
fn wait_drains_one_immediate_task() {
    let mut rt = Runtime::new(1);
    assert!(spawn(&mut rt, Job::Signal(true)).is_ok());
    assert_eq!(rt.live_tasks(), 1);
    assert_eq!(wait(&mut rt, 10), Ok(true));
    assert_eq!(rt.live_tasks(), 0);
}

#[test]
fn wait_drains_hundred_immediate_tasks() {
    let mut rt = Runtime::new(1);
    let spawner = rt.spawner();
    for n in 0..100u64 {
        assert_eq!(rt.live_tasks() as u64, n);
        assert!(spawner.spawn(&mut rt, Job::Signal(true)).is_ok());
    }
    assert_eq!(rt.live_tasks(), 100);
    assert_eq!(wait(&mut rt, 1000), Ok(true));
    assert_eq!(rt.live_tasks(), 0);
}

#[test]
fn spawn_after_shutdown_is_rejected() {
    let mut rt = Runtime::new(0);
    assert_eq!(
        spawn(&mut rt, Job::Signal(true)),
        Err(ExecError::SpawnAfterShutdown)
    );
    assert_eq!(rt.live_tasks(), 0);
    assert_eq!(wait(&mut rt, 10), Ok(true));
}

#[test]
fn three_sleeps_complete_out_of_submission_order() {
    let mut rt = Runtime::new(1);
    assert!(spawn(&mut rt, Job::Timer(Sleep::starting_at(1000, 0))).is_ok());
    assert!(spawn(&mut rt, Job::Timer(Sleep::starting_at(1000, 50))).is_ok());
    assert!(spawn(&mut rt, Job::Timer(Sleep::starting_at(1000, 10))).is_ok());
    assert_eq!(rt.live_tasks(), 3);

    // the zero-duration sleep is at the head: its very first poll completes,
    // so it is never observed pending
    rt.step(0, 1000);
    assert_eq!(rt.live_tasks(), 2);

    // the two longer sleeps are pending at their start time and re-enqueued
    rt.step(0, 1000);
    rt.step(0, 1000);
    assert_eq!(rt.live_tasks(), 2);
    assert_eq!(rt.queued_count(), 2);

    // at 1010 ms the 50 ms sleep (now at the head) is still pending, the
    // 10 ms sleep completes: completion order need not match submission
    rt.step(0, 1010);
    rt.step(0, 1010);
    assert_eq!(rt.live_tasks(), 1);

    rt.step(0, 1050);
    assert_eq!(rt.live_tasks(), 0);
    assert_eq!(rt.queued_count(), 0);
}

#[test]
fn three_sleeps_and_wait_with_the_real_clock() {
    let mut rt = Runtime::new(1);
    let zero = Sleep::new(0);
    // the zero-duration sleep must never be observed pending
    assert_eq!(zero.poll(), Ok(TaskPoll::Complete));
    assert!(spawn(&mut rt, Job::Timer(zero)).is_ok());
    assert!(spawn(&mut rt, Job::Timer(Sleep::new(50))).is_ok());
    assert!(spawn(&mut rt, Job::Timer(Sleep::new(10))).is_ok());
    assert_eq!(rt.live_tasks(), 3);
    // the blocking driver: call the bounded wait until the counter is zero
    loop {
        match wait(&mut rt, 10_000) {
            Ok(true) => break,
            Ok(false) => continue,
            Err(e) => panic!("clock failed: {:?}", e),
        }
    }
    assert_eq!(rt.live_tasks(), 0);
}

#[test]
fn blocking_task_occupies_its_worker_without_starving_others() {
    let mut rt = Runtime::new(2);
    assert!(block_on(&mut rt, Job::Timer(Sleep::starting_at(1000, 100))).is_ok());
    assert!(spawn(&mut rt, Job::Signal(true)).is_ok());
    assert_eq!(rt.live_tasks(), 2);

    // worker 0 dequeues the pending blocking task and is occupied by it
    rt.step(0, 1000);
    assert!(rt.worker_busy(0));
    assert_eq!(rt.live_tasks(), 2);

    // worker 1 still completes the already-resolved task
    rt.step(1, 1000);
    assert_eq!(rt.live_tasks(), 1);
    assert!(rt.worker_busy(0));
    assert!(!rt.worker_busy(1));

    // the blocking task keeps its worker until its deadline elapses
    rt.step(0, 1099);
    assert!(rt.worker_busy(0));
    rt.step(0, 1100);
    assert!(!rt.worker_busy(0));
    assert_eq!(rt.live_tasks(), 0);
}

#[test]
fn waker_invoked_many_times_re_enqueues_once() {
    let mut rt = Runtime::new(1);
    let id = spawn(&mut rt, Job::Signal(false)).unwrap();
    rt.step(0, 0);
    assert_eq!(rt.parked_count(), 1);
    assert_eq!(rt.queued_count(), 0);

    let w = Waker::new(id);
    rt.wake(&w);
    assert_eq!(rt.queued_count(), 1);
    assert_eq!(rt.parked_count(), 0);
    rt.wake(&w);
    rt.wake(&w);
    assert_eq!(rt.queued_count(), 1);
    assert_eq!(rt.parked_count(), 0);
    assert_eq!(rt.live_tasks(), 1);
}

#[test]
fn notify_readies_a_parked_task_to_completion() {
    let mut rt = Runtime::new(1);
    let id = spawn(&mut rt, Job::Signal(false)).unwrap();
    rt.step(0, 0);
    assert_eq!(rt.parked_count(), 1);

    rt.notify(id);
    assert_eq!(rt.parked_count(), 0);
    assert_eq!(rt.queued_count(), 1);

    rt.step(0, 0);
    assert_eq!(rt.live_tasks(), 0);
}

#[test]
fn notify_readies_a_queued_task_in_place() {
    let mut rt = Runtime::new(1);
    let id = spawn(&mut rt, Job::Signal(false)).unwrap();
    assert_eq!(rt.queued_count(), 1);
    rt.notify(id);
    assert_eq!(rt.queued_count(), 1);
    rt.step(0, 0);
    assert_eq!(rt.live_tasks(), 0);
}

#[test]
fn waking_an_unknown_identity_changes_nothing() {
    let mut rt = Runtime::new(1);
    assert!(spawn(&mut rt, Job::Signal(true)).is_ok());
    rt.wake(&Waker::new(999));
    assert_eq!(rt.queued_count(), 1);
    assert_eq!(rt.parked_count(), 0);
    assert_eq!(rt.live_tasks(), 1);
}

#[test]
fn task_exposes_classification_identity_and_poll() {
    let t = Task::new(7, Job::Signal(true), true);
    assert!(t.will_block());
    assert_eq!(t.waker().task_id(), 7);
    assert_eq!(t.poll(0), Ok(TaskPoll::Complete));

    let u = Task::new(8, Job::Timer(Sleep::starting_at(0, 5)), false);
    assert!(!u.will_block());
    assert_eq!(u.poll(3), Ok(TaskPoll::Pending));
    assert_eq!(u.poll(5), Ok(TaskPoll::Complete));
}

#[test]
fn identities_are_issued_in_submission_order() {
    let mut rt = Runtime::new(1);
    assert_eq!(rt.ids_issued(), 0);
    let a = spawn(&mut rt, Job::Signal(true)).unwrap();
    let b = spawn(&mut rt, Job::Signal(false)).unwrap();
    assert_eq!(a, 0);
    assert_eq!(b, 1);
    assert_eq!(rt.ids_issued(), 2);
    // identities are spent by submission, not returned by completion
    assert_eq!(wait(&mut rt, 1), Ok(false));
    assert_eq!(rt.ids_issued(), 2);
}

#[test]
fn runtime_reports_its_workers() {
    let rt = Runtime::new(3);
    assert_eq!(rt.workers(), 3);
    assert!(!rt.worker_busy(2));
}

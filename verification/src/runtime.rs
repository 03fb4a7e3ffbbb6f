//! The executor: task and queue data model, spawning, waker plumbing, and the
//! per-worker scheduling step, all as a deterministic state machine.

use vstd::prelude::*;

use crate::future::ExecError;
use crate::future::Sleep;
use crate::future::TaskPoll;

verus! {

/// A suspendable computation the executor can schedule, together with how a
/// pending poll is followed up.
#[derive(Clone, Copy, Debug)]
pub enum Job {
    /// Polling-only: complete once its deadline has elapsed. Nothing will
    /// invoke its waker, so a pending timer is re-enqueued by the executor.
    Timer(Sleep),
    /// Event-driven: pending until its external collaborator marks it ready
    /// (the flag), then complete. A pending signal is parked until woken.
    Signal(bool),
}

impl Job {
    /// What one poll at wall-clock time `now` reports: a timer defers to the
    /// sleep's completion check, a signal is complete exactly when ready.
    pub open spec fn poll_spec(self, now: u128) -> Result<TaskPoll, ExecError> {
        match self {
            Job::Timer(s) => s.poll_spec(now),
            Job::Signal(ready) => if ready {
                Ok(TaskPoll::Complete)
            } else {
                Ok(TaskPoll::Pending)
            },
        }
    }

    /// True for jobs that can signal their own readiness through a waker;
    /// the executor parks these instead of re-enqueueing them.
    pub open spec fn is_event_driven(self) -> bool {
        self is Signal
    }

    /// Poll the job once against an explicit clock reading.
    pub fn poll_at(&self, now: u128) -> (r: Result<TaskPoll, ExecError>)
        ensures
            r == self.poll_spec(now),
    {
        match self {
            Job::Timer(s) => s.poll_at(now),
            Job::Signal(ready) => if *ready {
                Ok(TaskPoll::Complete)
            } else {
                Ok(TaskPoll::Pending)
            },
        }
    }
}

/// A schedulable unit of work: a job, an identity the waker refers to, and
/// the blocking classification, both fixed at creation.
#[derive(Clone, Copy, Debug)]
pub struct Task {
    id: u64,
    job: Job,
    blocking: bool,
}

impl Task {
    /// The identity the runtime and the task's waker refer to.
    pub closed spec fn id_spec(self) -> u64 {
        self.id
    }

    /// The wrapped computation.
    pub closed spec fn job_spec(self) -> Job {
        self.job
    }

    /// Whether the task may monopolize its worker until completion.
    pub closed spec fn blocking_spec(self) -> bool {
        self.blocking
    }

    /// Wrap a computation and its blocking classification. No polling occurs
    /// at construction.
    pub fn new(id: u64, job: Job, blocking: bool) -> (t: Task)
        ensures
            t.id_spec() == id,
            t.job_spec() == job,
            t.blocking_spec() == blocking,
    {
        Task { id, job, blocking }
    }

    /// The blocking classification, read-only.
    pub fn will_block(&self) -> (r: bool)
        ensures
            r == self.blocking_spec(),
    {
        self.blocking
    }

    /// A waker bound to the task's identity.
    pub fn waker(&self) -> (w: Waker)
        ensures
            w.id_spec() == self.id_spec(),
    {
        Waker { id: self.id }
    }

    /// Delegate one poll to the wrapped computation and return its result
    /// unchanged: the task adds identity and classification, no computation.
    pub fn poll(&self, now: u128) -> (r: Result<TaskPoll, ExecError>)
        ensures
            r == self.job_spec().poll_spec(now),
    {
        self.job.poll_at(now)
    }
}

/// A handle bound to one task, cheaply copied and invocable long after the
/// poll that handed it out: invoking it (through `Runtime::wake`) re-inserts
/// that task into the queue if and only if the task is parked.
#[derive(Clone, Copy, Debug)]
pub struct Waker {
    id: u64,
}

impl Waker {
    /// The identity of the task this waker re-enqueues.
    pub closed spec fn id_spec(self) -> u64 {
        self.id
    }

    /// A waker for the task with the given identity.
    pub fn new(id: u64) -> (w: Waker)
        ensures
            w.id_spec() == id,
    {
        Waker { id }
    }

    /// The identity of the task this waker re-enqueues, read-only.
    pub fn task_id(&self) -> (id: u64)
        ensures
            id == self.id_spec(),
    {
        self.id
    }
}

/// How many workers currently hold a task.
pub open spec fn some_count(s: Seq<Option<Task>>) -> nat
    decreases s.len(),
{
    if s.len() == 0 {
        0
    } else {
        some_count(s.drop_last()) + if s.last() is Some {
            1nat
        } else {
            0nat
        }
    }
}

/// First index in `s` of the task with identity `id`, or -1 when absent.
pub open spec fn find_id(s: Seq<Task>, id: u64) -> int
    decreases s.len(),
{
    if s.len() == 0 {
        -1
    } else if s[0].id_spec() == id {
        0
    } else {
        let r = find_id(s.subrange(1, s.len() as int), id);
        if r == -1 {
            -1
        } else {
            r + 1
        }
    }
}

proof fn lemma_some_count_push(s: Seq<Option<Task>>, v: Option<Task>)
    ensures
        some_count(s.push(v)) == some_count(s) + if v is Some {
            1int
        } else {
            0int
        },
{
    assert(s.push(v).drop_last() =~= s);
}

proof fn lemma_some_count_update(s: Seq<Option<Task>>, i: int, v: Option<Task>)
    requires
        0 <= i < s.len(),
    ensures
        some_count(s.update(i, v)) == some_count(s) + (if v is Some {
            1int
        } else {
            0int
        }) - (if s[i] is Some {
            1int
        } else {
            0int
        }),
    decreases s.len(),
{
    if i == s.len() - 1 {
        assert(s.update(i, v).drop_last() =~= s.drop_last());
        assert(s.update(i, v).last() == v);
    } else {
        lemma_some_count_update(s.drop_last(), i, v);
        assert(s.update(i, v).drop_last() =~= s.drop_last().update(i, v));
        assert(s.update(i, v).last() == s.last());
    }
}

proof fn lemma_some_count_pos(s: Seq<Option<Task>>, i: int)
    requires
        0 <= i < s.len(),
        s[i] is Some,
    ensures
        some_count(s) >= 1,
    decreases s.len(),
{
    if i < s.len() - 1 {
        lemma_some_count_pos(s.drop_last(), i);
    }
}

proof fn lemma_find_id(s: Seq<Task>, id: u64)
    ensures
        find_id(s, id) == -1 <==> (forall|i: int| 0 <= i < s.len() ==> s[i].id_spec() != id),
        find_id(s, id) != -1 ==> 0 <= find_id(s, id) < s.len()
            && s[find_id(s, id)].id_spec() == id
            && (forall|j: int| 0 <= j < find_id(s, id) ==> s[j].id_spec() != id),
    decreases s.len(),
{
    if s.len() == 0 {
    } else if s[0].id_spec() == id {
    } else {
        let rest = s.subrange(1, s.len() as int);
        lemma_find_id(rest, id);
        let r = find_id(rest, id);
        if r == -1 {
            assert forall|i: int| 0 <= i < s.len() implies s[i].id_spec() != id by {
                if i > 0 {
                    assert(s[i] == rest[i - 1]);
                }
            }
        } else {
            assert(s[r + 1] == rest[r]);
            assert forall|j: int| 0 <= j < r + 1 implies s[j].id_spec() != id by {
                if j > 0 {
                    assert(s[j] == rest[j - 1]);
                }
            }
        }
    }
}

/// The executor: the shared FIFO queue of pending tasks, the tasks parked
/// awaiting their waker, the task each worker is currently occupied by, and
/// the live-task counter. A deterministic state machine: worker threads,
/// parking, and clock plumbing drive it from outside through `step`,
/// `step_all` and `wait`.
pub struct Runtime {
    /// Pending tasks in FIFO poll-attempt order; index 0 is polled next.
    queue: Vec<Task>,
    /// Tasks polled `Pending` that will signal readiness through their waker.
    parked: Vec<Task>,
    /// Per-worker slot: the blocking task that currently occupies the worker.
    held: Vec<Option<Task>>,
    /// Live-task counter: tasks submitted but not yet completed.
    tasks: usize,
    /// Identity handed to the next submitted task.
    next_id: u64,
}

/// The submission handle: hands new tasks to the runtime's queue and bumps
/// its live-task counter. Cheaply cloned; thread-safety is the business of
/// whatever shares the runtime itself.
#[derive(Clone, Copy, Debug)]
pub struct Spawner {
}

impl Runtime {
    /// The pending tasks in FIFO poll-attempt order.
    pub closed spec fn queue_spec(self) -> Seq<Task> {
        self.queue@
    }

    /// The tasks parked awaiting their waker.
    pub closed spec fn parked_spec(self) -> Seq<Task> {
        self.parked@
    }

    /// Per-worker slot: the blocking task that occupies each worker.
    pub closed spec fn held_spec(self) -> Seq<Option<Task>> {
        self.held@
    }

    /// The live-task counter.
    pub closed spec fn live_spec(self) -> usize {
        self.tasks
    }

    /// The identity the next submitted task will get.
    pub closed spec fn next_id_spec(self) -> u64 {
        self.next_id
    }

    /// How many workers this runtime was created with.
    pub open spec fn workers_spec(self) -> nat {
        self.held_spec().len()
    }

    /// Task identities are pairwise distinct across the queue and the parked
    /// set, so a waker names at most one waiting task.
    pub open spec fn ids_distinct(self) -> bool {
        &&& forall|i: int, j: int|
            0 <= i < j < self.queue_spec().len() ==> self.queue_spec()[i].id_spec()
                != self.queue_spec()[j].id_spec()
        &&& forall|i: int, j: int|
            0 <= i < j < self.parked_spec().len() ==> self.parked_spec()[i].id_spec()
                != self.parked_spec()[j].id_spec()
        &&& forall|i: int, j: int|
            0 <= i < self.queue_spec().len() && 0 <= j < self.parked_spec().len()
                ==> self.queue_spec()[i].id_spec() != self.parked_spec()[j].id_spec()
    }

    /// Every waiting task's identity was handed out by this runtime.
    pub open spec fn ids_bounded(self) -> bool {
        &&& forall|i: int|
            0 <= i < self.queue_spec().len() ==> self.queue_spec()[i].id_spec()
                < self.next_id_spec()
        &&& forall|i: int|
            0 <= i < self.parked_spec().len() ==> self.parked_spec()[i].id_spec()
                < self.next_id_spec()
    }

    /// Well-formedness: the live-task counter counts exactly the tasks that
    /// are queued, parked or held by a worker (so it can never go negative);
    /// waiting tasks have distinct, runtime-issued identities; and live
    /// tasks exist only while a worker exists to drain them.
    pub open spec fn wf(self) -> bool {
        &&& self.live_spec() == self.queue_spec().len() + self.parked_spec().len()
            + some_count(self.held_spec())
        &&& self.ids_distinct()
        &&& self.ids_bounded()
        &&& self.live_spec() > 0 ==> self.workers_spec() > 0
    }

    /// A fresh runtime with the given number of workers, no tasks, and the
    /// live-task counter at zero. A runtime created with zero workers is
    /// permanently shut down: every submission to it is rejected.
    pub fn new(n_workers: usize) -> (rt: Runtime)
        ensures
            rt.wf(),
            rt.workers_spec() == n_workers,
            rt.live_spec() == 0,
            rt.queue_spec().len() == 0,
            rt.parked_spec().len() == 0,
            rt.next_id_spec() == 0,
            forall|w: int| 0 <= w < n_workers ==> rt.held_spec()[w] is None,
    {
        let mut held: Vec<Option<Task>> = Vec::new();
        while held.len() < n_workers
            invariant
                held.len() <= n_workers,
                some_count(held@) == 0,
                forall|w: int| 0 <= w < held.len() ==> held@[w] is None,
            decreases n_workers - held.len(),
        {
            proof {
                lemma_some_count_push(held@, None::<Task>);
            }
            held.push(None);
        }
        Runtime { queue: Vec::new(), parked: Vec::new(), held, tasks: 0, next_id: 0 }
    }

    /// A submission handle for this runtime.
    pub fn spawner(&self) -> (s: Spawner) {
        Spawner {}
    }

    /// The live-task counter: tasks submitted but not yet completed.
    pub fn live_tasks(&self) -> (n: usize)
        ensures
            n == self.live_spec(),
    {
        self.tasks
    }

    /// How many workers this runtime was created with.
    pub fn workers(&self) -> (n: usize)
        ensures
            n == self.workers_spec(),
    {
        self.held.len()
    }

    /// How many tasks are queued for a poll attempt.
    pub fn queued_count(&self) -> (n: usize)
        ensures
            n == self.queue_spec().len(),
    {
        self.queue.len()
    }

    /// How many tasks are parked awaiting their waker.
    pub fn parked_count(&self) -> (n: usize)
        ensures
            n == self.parked_spec().len(),
    {
        self.parked.len()
    }

    /// How many task identities this runtime has issued so far; the next
    /// submission gets exactly this identity. A caller that cannot reason
    /// about the identity supply reads this to check headroom before
    /// spawning.
    pub fn ids_issued(&self) -> (n: u64)
        ensures
            n == self.next_id_spec(),
    {
        self.next_id
    }

    /// Whether worker `w` is currently occupied by a blocking task.
    pub fn worker_busy(&self, w: usize) -> (b: bool)
        requires
            w < self.workers_spec(),
        ensures
            b == (self.held_spec()[w as int] is Some),
    {
        self.held[w].is_some()
    }

    /// Submission core shared by `Spawner::spawn` and
    /// `Spawner::spawn_blocking`: wrap the job as a task with a fresh
    /// identity, count it live, and push it to the back of the queue — or
    /// reject it when no worker exists to drain it.
    fn submit(&mut self, job: Job, blocking: bool) -> (r: Result<u64, ExecError>)
        requires
            old(self).wf(),
            old(self).live_spec() < usize::MAX,
            old(self).next_id_spec() < u64::MAX,
        ensures
            final(self).wf(),
            submitted(*old(self), *final(self), job, blocking, r),
    {
        if self.held.len() == 0 {
            return Err(ExecError::SpawnAfterShutdown);
        }
        let id = self.next_id;
        let t = Task { id, job, blocking };
        self.queue.push(t);
        self.tasks = self.tasks + 1;
        self.next_id = self.next_id + 1;
        Ok(id)
    }
}

/// Runtime states before and after one submission, and its result: rejected
/// with `SpawnAfterShutdown` (and the runtime untouched) exactly when the
/// runtime has no worker; otherwise the job is appended to the queue as a
/// task carrying a fresh identity — which is returned — with the requested
/// blocking classification, the live-task counter is incremented exactly
/// once, and nothing else changes.
pub open spec fn submitted(
    pre: Runtime,
    post: Runtime,
    job: Job,
    blocking: bool,
    r: Result<u64, ExecError>,
) -> bool {
    if pre.workers_spec() == 0 {
        r == Err::<u64, ExecError>(ExecError::SpawnAfterShutdown) && unchanged(pre, post)
    } else {
        &&& r == Ok::<u64, ExecError>(pre.next_id_spec())
        &&& post.queue_spec().len() == pre.queue_spec().len() + 1
        &&& forall|i: int|
            0 <= i < pre.queue_spec().len() ==> post.queue_spec()[i] == pre.queue_spec()[i]
        &&& post.queue_spec().last().id_spec() == pre.next_id_spec()
        &&& post.queue_spec().last().job_spec() == job
        &&& post.queue_spec().last().blocking_spec() == blocking
        &&& post.parked_spec() == pre.parked_spec()
        &&& post.held_spec() == pre.held_spec()
        &&& post.live_spec() == pre.live_spec() + 1
        &&& post.next_id_spec() == pre.next_id_spec() + 1
    }
}

/// The runtime's observable state is the same in `pre` and `post`.
pub open spec fn unchanged(pre: Runtime, post: Runtime) -> bool {
    &&& post.queue_spec() == pre.queue_spec()
    &&& post.parked_spec() == pre.parked_spec()
    &&& post.held_spec() == pre.held_spec()
    &&& post.live_spec() == pre.live_spec()
    &&& post.next_id_spec() == pre.next_id_spec()
}

impl Spawner {
    /// Wrap the computation as a non-blocking task, count it live, and
    /// enqueue it; fire-and-forget. The returned identity is the handle a
    /// waker for the task is built from. Rejected with `SpawnAfterShutdown`
    /// exactly when the runtime has no worker to drain it.
    pub fn spawn(&self, rt: &mut Runtime, job: Job) -> (r: Result<u64, ExecError>)
        requires
            old(rt).wf(),
            old(rt).live_spec() < usize::MAX,
            old(rt).next_id_spec() < u64::MAX,
        ensures
            final(rt).wf(),
            submitted(*old(rt), *final(rt), job, false, r),
    {
        rt.submit(job, false)
    }

    /// Like `spawn`, but the task is marked blocking: once a worker polls it
    /// pending, the task monopolizes that worker until it completes.
    pub fn spawn_blocking(&self, rt: &mut Runtime, job: Job) -> (r: Result<u64, ExecError>)
        requires
            old(rt).wf(),
            old(rt).live_spec() < usize::MAX,
            old(rt).next_id_spec() < u64::MAX,
        ensures
            final(rt).wf(),
            submitted(*old(rt), *final(rt), job, true, r),
    {
        rt.submit(job, true)
    }
}

/// Submit a non-blocking task through the runtime's spawner.
pub fn spawn(rt: &mut Runtime, job: Job) -> (r: Result<u64, ExecError>)
    requires
        old(rt).wf(),
        old(rt).live_spec() < usize::MAX,
        old(rt).next_id_spec() < u64::MAX,
    ensures
        final(rt).wf(),
        submitted(*old(rt), *final(rt), job, false, r),
{
    let s = rt.spawner();
    s.spawn(rt, job)
}

/// Submit a blocking task through the runtime's spawner; completion is
/// observed via the live-task counter, not a return value.
pub fn block_on(rt: &mut Runtime, job: Job) -> (r: Result<u64, ExecError>)
    requires
        old(rt).wf(),
        old(rt).live_spec() < usize::MAX,
        old(rt).next_id_spec() < u64::MAX,
    ensures
        final(rt).wf(),
        submitted(*old(rt), *final(rt), job, true, r),
{
    let s = rt.spawner();
    s.spawn_blocking(rt, job)
}

/// Runtime states before and after one waker invocation for identity `id`:
/// if a task with that identity is parked, it — alone — moves to the back of
/// the queue; otherwise nothing changes. The live-task counter, the workers
/// and the identity supply are never touched.
pub open spec fn woken(pre: Runtime, post: Runtime, id: u64) -> bool {
    &&& post.live_spec() == pre.live_spec()
    &&& post.held_spec() == pre.held_spec()
    &&& post.next_id_spec() == pre.next_id_spec()
    &&& {
        let i = find_id(pre.parked_spec(), id);
        if i == -1 {
            unchanged(pre, post)
        } else {
            &&& post.queue_spec() == pre.queue_spec().push(pre.parked_spec()[i])
            &&& post.parked_spec() == pre.parked_spec().remove(i)
        }
    }
}

impl Runtime {
    /// Invoke a waker: re-insert its task into the queue if and only if the
    /// task is parked. Afterwards the task is no longer parked, so invoking
    /// the same waker again before the task is next polled changes nothing —
    /// a task is never duplicated in the queue.
    pub fn wake(&mut self, w: &Waker)
        requires
            old(self).wf(),
        ensures
            final(self).wf(),
            woken(*old(self), *final(self), w.id_spec()),
            find_id(final(self).parked_spec(), w.id_spec()) == -1,
    {
        proof {
            lemma_find_id(old(self).parked_spec(), w.id_spec());
        }
        let n = self.parked.len();
        let mut i: usize = 0;
        while i < n && self.parked[i].id != w.id
            invariant
                *self == *old(self),
                n == self.parked_spec().len(),
                i <= n,
                forall|j: int| 0 <= j < i ==> self.parked_spec()[j].id_spec() != w.id_spec(),
            decreases n - i,
        {
            i = i + 1;
        }
        if i < self.parked.len() {
            proof {
                assert(find_id(old(self).parked_spec(), w.id_spec()) == i);
            }
            let t = self.parked.remove(i);
            self.queue.push(t);
            proof {
                lemma_find_id(self.parked_spec(), w.id_spec());
                assert forall|j: int|
                    0 <= j < self.parked_spec().len() implies self.parked_spec()[j].id_spec()
                    != w.id_spec() by {
                    if j < i {
                        assert(self.parked_spec()[j] == old(self).parked_spec()[j]);
                    } else {
                        assert(self.parked_spec()[j] == old(self).parked_spec()[j + 1]);
                    }
                }
            }
        } else {
            proof {
                lemma_find_id(self.parked_spec(), w.id_spec());
            }
        }
    }
}

/// Runtime states before and after one scheduling iteration of worker `w` at
/// wall-clock time `now`. The worker first finishes with any blocking task
/// it holds; otherwise it dequeues the task at the head of the FIFO queue
/// and polls it once. A task that completes — or whose body fails — is
/// dropped and the live-task counter decremented exactly once; a pending
/// blocking task occupies this worker; a pending event-driven task is parked
/// until its waker fires; a pending polling-only task yields its position
/// and is re-enqueued at the back. Other workers' held tasks, and the
/// identity supply, are never touched.
pub open spec fn stepped(pre: Runtime, post: Runtime, w: int, now: u128) -> bool {
    &&& post.next_id_spec() == pre.next_id_spec()
    &&& post.held_spec().len() == pre.held_spec().len()
    &&& forall|v: int|
        0 <= v < pre.held_spec().len() && v != w ==> post.held_spec()[v] == pre.held_spec()[v]
    &&& match pre.held_spec()[w] {
        Some(t) => if t.job_spec().poll_spec(now) == Ok::<TaskPoll, ExecError>(TaskPoll::Pending) {
            // the blocking task monopolizes this worker until it completes
            unchanged(pre, post)
        } else {
            // complete, or its body failed: drop it, count it done
            &&& post.queue_spec() == pre.queue_spec()
            &&& post.parked_spec() == pre.parked_spec()
            &&& post.held_spec() == pre.held_spec().update(w, None::<Task>)
            &&& post.live_spec() == pre.live_spec() - 1
        },
        None => if pre.queue_spec().len() == 0 {
            // idle: nothing to do (a real worker parks here)
            unchanged(pre, post)
        } else {
            let t = pre.queue_spec()[0];
            let rest = pre.queue_spec().subrange(1, pre.queue_spec().len() as int);
            if t.job_spec().poll_spec(now) != Ok::<TaskPoll, ExecError>(TaskPoll::Pending) {
                // resolved, or its body failed: drop it, count it done
                &&& post.queue_spec() == rest
                &&& post.parked_spec() == pre.parked_spec()
                &&& post.held_spec() == pre.held_spec()
                &&& post.live_spec() == pre.live_spec() - 1
            } else if t.blocking_spec() {
                // pending and allowed to block: occupy this worker
                &&& post.queue_spec() == rest
                &&& post.parked_spec() == pre.parked_spec()
                &&& post.held_spec() == pre.held_spec().update(w, Some(t))
                &&& post.live_spec() == pre.live_spec()
            } else if t.job_spec().is_event_driven() {
                // pending, will signal readiness: park it until its waker fires
                &&& post.queue_spec() == rest
                &&& post.parked_spec() == pre.parked_spec().push(t)
                &&& post.held_spec() == pre.held_spec()
                &&& post.live_spec() == pre.live_spec()
            } else {
                // pending, polling-only: yield its position, re-enqueue it
                &&& post.queue_spec() == rest.push(t)
                &&& post.parked_spec() == pre.parked_spec()
                &&& post.held_spec() == pre.held_spec()
                &&& post.live_spec() == pre.live_spec()
            }
        },
    }
}

impl Runtime {
    /// One scheduling iteration of worker `w` against an explicit clock
    /// reading: finish with a held blocking task, or dequeue and poll the
    /// head of the queue, as `stepped` states case by case.
    pub fn step(&mut self, w: usize, now: u128)
        requires
            old(self).wf(),
            w < old(self).workers_spec(),
        ensures
            final(self).wf(),
            stepped(*old(self), *final(self), w as int, now),
            final(self).workers_spec() == old(self).workers_spec(),
            final(self).live_spec() <= old(self).live_spec(),
            old(self).live_spec() == 0 ==> unchanged(*old(self), *final(self)),
    {
        let held_task = self.held[w];
        match held_task {
            Some(t) => {
                proof {
                    lemma_some_count_pos(self.held_spec(), w as int);
                }
                let r = t.poll(now);
                let pending = match r {
                    Ok(TaskPoll::Pending) => true,
                    _ => false,
                };
                if !pending {
                    self.held[w] = None;
                    self.tasks = self.tasks - 1;
                    proof {
                        lemma_some_count_update(old(self).held_spec(), w as int, None::<Task>);
                    }
                }
            },
            None => {
                if self.queue.len() > 0 {
                    let t = self.queue.remove(0);
                    proof {
                        assert(self.queue_spec() =~= old(self).queue_spec().subrange(
                            1,
                            old(self).queue_spec().len() as int,
                        ));
                    }
                    let r = t.poll(now);
                    let pending = match r {
                        Ok(TaskPoll::Pending) => true,
                        _ => false,
                    };
                    if !pending {
                        self.tasks = self.tasks - 1;
                    } else if t.will_block() {
                        self.held[w] = Some(t);
                        proof {
                            lemma_some_count_update(old(self).held_spec(), w as int, Some(t));
                        }
                    } else {
                        let event_driven = match t.job {
                            Job::Signal(_) => true,
                            _ => false,
                        };
                        if event_driven {
                            self.parked.push(t);
                        } else {
                            self.queue.push(t);
                        }
                    }
                }
            },
        }
    }
}

/// The runtime states reachable from `pre` by one scheduling iteration of
/// each of the workers `0 .. w` in turn, all at wall-clock time `now` —
/// exactly what one sweep of `step_all` does to the state.
pub open spec fn stepped_upto(pre: Runtime, post: Runtime, w: int, now: u128) -> bool
    decreases w,
{
    if w <= 0 {
        unchanged(pre, post)
    } else {
        exists|mid: Runtime|
            stepped_upto(pre, mid, w - 1, now) && #[trigger] stepped(mid, post, w - 1, now)
    }
}

proof fn lemma_stepped_upto_extend(pre: Runtime, mid: Runtime, post: Runtime, w: int, now: u128)
    requires
        w >= 0,
        stepped_upto(pre, mid, w, now),
        stepped(mid, post, w, now),
    ensures
        stepped_upto(pre, post, w + 1, now),
{
    assert(stepped_upto(pre, mid, (w + 1) - 1, now));
    assert(stepped(mid, post, (w + 1) - 1, now));
}

impl Runtime {
    /// One scheduling iteration of every worker in turn, at one clock
    /// reading: the final state is reached from the initial one by the
    /// `stepped` transition of each worker, as `stepped_upto` states.
    /// Completions only ever decrease the live-task counter; with no live
    /// task there is nothing to do and nothing changes.
    pub fn step_all(&mut self, now: u128)
        requires
            old(self).wf(),
        ensures
            final(self).wf(),
            stepped_upto(*old(self), *final(self), old(self).workers_spec() as int, now),
            final(self).workers_spec() == old(self).workers_spec(),
            final(self).live_spec() <= old(self).live_spec(),
            final(self).next_id_spec() == old(self).next_id_spec(),
            old(self).live_spec() == 0 ==> unchanged(*old(self), *final(self)),
    {
        let n = self.held.len();
        let mut w: usize = 0;
        while w < n
            invariant
                self.wf(),
                w <= n,
                self.workers_spec() == n,
                self.workers_spec() == old(self).workers_spec(),
                self.live_spec() <= old(self).live_spec(),
                self.next_id_spec() == old(self).next_id_spec(),
                old(self).live_spec() == 0 ==> unchanged(*old(self), *self),
                stepped_upto(*old(self), *self, w as int, now),
            decreases n - w,
        {
            let ghost before = *self;
            self.step(w, now);
            proof {
                lemma_stepped_upto_extend(*old(self), before, *self, w as int, now);
                if old(self).live_spec() == 0 {
                    assert(unchanged(before, *self));
                }
            }
            w = w + 1;
        }
    }
}

/// The runtime states reachable from `pre` by `k` whole scheduling sweeps,
/// each sweep one iteration of every worker at a single clock reading of its
/// own. The wall clock picks the readings, hence the existential: what is
/// fixed is that each sweep really is a chain of `stepped` transitions.
pub open spec fn swept(pre: Runtime, post: Runtime, k: int) -> bool
    decreases k,
{
    if k <= 0 {
        unchanged(pre, post)
    } else {
        exists|mid: Runtime, now: u128|
            swept(pre, mid, k - 1) && #[trigger] stepped_upto(
                mid,
                post,
                mid.workers_spec() as int,
                now,
            )
    }
}

proof fn lemma_swept_extend(pre: Runtime, mid: Runtime, post: Runtime, k: int, now: u128)
    requires
        k >= 0,
        swept(pre, mid, k),
        stepped_upto(mid, post, mid.workers_spec() as int, now),
    ensures
        swept(pre, post, k + 1),
{
    assert(swept(pre, mid, (k + 1) - 1));
    assert(stepped_upto(mid, post, mid.workers_spec() as int, now));
}

/// Block the caller while driving every worker's scheduling loop from the
/// calling thread, until the live-task counter reaches zero: then, and
/// exactly then, the result is `Ok(true)`. With no live task it returns at
/// once, without touching the runtime. Because a worker's progress depends
/// on the wall clock, the caller bounds how many scheduling rounds to
/// attempt; `Ok(false)` reports a budget spent with tasks still live — after
/// the full `rounds` sweeps of every worker, as `swept` states, never fewer —
/// and a driver that wants to block indefinitely calls again. Fails loudly
/// with `ClockUnavailable` — rather than spinning forever — when the wall
/// clock cannot be read, after the sweeps already made.
pub fn wait(rt: &mut Runtime, rounds: usize) -> (r: Result<bool, ExecError>)
    requires
        old(rt).wf(),
    ensures
        final(rt).wf(),
        r == Ok::<bool, ExecError>(true) <==> final(rt).live_spec() == 0 && r is Ok,
        r is Err ==> r == Err::<bool, ExecError>(ExecError::ClockUnavailable),
        old(rt).live_spec() == 0 ==> r == Ok::<bool, ExecError>(true) && unchanged(
            *old(rt),
            *final(rt),
        ),
        final(rt).workers_spec() == old(rt).workers_spec(),
        final(rt).live_spec() <= old(rt).live_spec(),
        r == Ok::<bool, ExecError>(false) ==> swept(*old(rt), *final(rt), rounds as int),
        r == Ok::<bool, ExecError>(true) ==> exists|k: int|
            0 <= k <= rounds && #[trigger] swept(*old(rt), *final(rt), k),
        r is Err ==> exists|k: int| 0 <= k < rounds && #[trigger] swept(*old(rt), *final(rt), k),
{
    let mut k: usize = rounds;
    while k > 0
        invariant
            rt.wf(),
            k <= rounds,
            rt.workers_spec() == old(rt).workers_spec(),
            rt.live_spec() <= old(rt).live_spec(),
            old(rt).live_spec() == 0 ==> unchanged(*old(rt), *rt),
            swept(*old(rt), *rt, rounds - k),
        decreases k,
    {
        if rt.live_tasks() == 0 {
            proof {
                assert(swept(*old(rt), *rt, rounds - k));
            }
            return Ok(true);
        }
        match crate::future::now_millis() {
            None => {
                proof {
                    assert(swept(*old(rt), *rt, rounds - k));
                }
                return Err(ExecError::ClockUnavailable);
            },
            Some(n) => {
                let ghost before = *rt;
                rt.step_all(n);
                proof {
                    lemma_swept_extend(*old(rt), before, *rt, rounds - k, n);
                }
            },
        }
        k = k - 1;
    }
    Ok(rt.live_tasks() == 0)
}

/// The job after its external event has been delivered: an event-driven job
/// becomes ready; a polling-only job is not affected.
pub open spec fn ready_job(j: Job) -> Job {
    match j {
        Job::Signal(_) => Job::Signal(true),
        other => other,
    }
}

/// Runtime states before and after the external event for identity `id` is
/// delivered: the task's job is marked ready, and — exactly as a waker
/// invocation would — the task moves from the parked set to the back of the
/// queue if it was parked, or stays in place in the queue. A task that is
/// neither parked nor queued (completed, or held by a worker, which only a
/// blocking task can be) is not reached, and nothing changes. The live-task
/// counter, the workers and the identity supply are never touched.
pub open spec fn notified(pre: Runtime, post: Runtime, id: u64) -> bool {
    &&& post.live_spec() == pre.live_spec()
    &&& post.held_spec() == pre.held_spec()
    &&& post.next_id_spec() == pre.next_id_spec()
    &&& {
        let i = find_id(pre.parked_spec(), id);
        let j = find_id(pre.queue_spec(), id);
        if i != -1 {
            let t = pre.parked_spec()[i];
            &&& post.parked_spec() == pre.parked_spec().remove(i)
            &&& post.queue_spec().len() == pre.queue_spec().len() + 1
            &&& forall|k: int|
                0 <= k < pre.queue_spec().len() ==> post.queue_spec()[k] == pre.queue_spec()[k]
            &&& post.queue_spec().last().id_spec() == t.id_spec()
            &&& post.queue_spec().last().blocking_spec() == t.blocking_spec()
            &&& post.queue_spec().last().job_spec() == ready_job(t.job_spec())
        } else if j != -1 {
            let t = pre.queue_spec()[j];
            &&& post.parked_spec() == pre.parked_spec()
            &&& post.queue_spec().len() == pre.queue_spec().len()
            &&& forall|k: int|
                0 <= k < pre.queue_spec().len() && k != j ==> post.queue_spec()[k]
                    == pre.queue_spec()[k]
            &&& post.queue_spec()[j].id_spec() == t.id_spec()
            &&& post.queue_spec()[j].blocking_spec() == t.blocking_spec()
            &&& post.queue_spec()[j].job_spec() == ready_job(t.job_spec())
        } else {
            unchanged(pre, post)
        }
    }
}

impl Runtime {
    /// Deliver the external event a parked or queued task is waiting for:
    /// mark the job of the task with identity `id` ready and, if the task
    /// is parked, invoke its waker's effect — one re-insertion into the
    /// queue. This is the readiness signal an I/O completion or timer
    /// collaborator sends from outside the executor.
    pub fn notify(&mut self, id: u64)
        requires
            old(self).wf(),
        ensures
            final(self).wf(),
            notified(*old(self), *final(self), id),
    {
        proof {
            lemma_find_id(old(self).parked_spec(), id);
            lemma_find_id(old(self).queue_spec(), id);
        }
        let pn = self.parked.len();
        let mut i: usize = 0;
        while i < pn && self.parked[i].id != id
            invariant
                *self == *old(self),
                pn == self.parked_spec().len(),
                i <= pn,
                forall|k: int| 0 <= k < i ==> self.parked_spec()[k].id_spec() != id,
            decreases pn - i,
        {
            i = i + 1;
        }
        if i < self.parked.len() {
            proof {
                assert(find_id(old(self).parked_spec(), id) == i);
            }
            let t = self.parked.remove(i);
            let ready = Task { id: t.id, job: mark_ready(t.job), blocking: t.blocking };
            self.queue.push(ready);
            return;
        }
        let qn = self.queue.len();
        let mut j: usize = 0;
        while j < qn && self.queue[j].id != id
            invariant
                *self == *old(self),
                qn == self.queue_spec().len(),
                j <= qn,
                forall|k: int| 0 <= k < j ==> self.queue_spec()[k].id_spec() != id,
            decreases qn - j,
        {
            j = j + 1;
        }
        if j < self.queue.len() {
            proof {
                assert(find_id(old(self).queue_spec(), id) == j);
            }
            let t = self.queue[j];
            let ready = Task { id: t.id, job: mark_ready(t.job), blocking: t.blocking };
            self.queue[j] = ready;
        }
    }
}

/// Mark a job's external event as delivered; `ready_job` states the result.
fn mark_ready(j: Job) -> (r: Job)
    ensures
        r == ready_job(j),
{
    match j {
        Job::Signal(_) => Job::Signal(true),
        other => other,
    }
}

/// Each completion is counted exactly once: a scheduling step of an idle
/// worker that finds a task ready to complete at the head of the queue drops
/// that task — and only it — and decrements the live-task counter by exactly
/// one. Iterated over a queue of immediately-resolving tasks, this drives
/// the counter from its submitted count down to zero.
pub proof fn lemma_resolved_head_completes(pre: Runtime, post: Runtime, w: int, now: u128)
    requires
        pre.wf(),
        0 <= w < pre.workers_spec(),
        pre.held_spec()[w] is None,
        pre.queue_spec().len() > 0,
        pre.queue_spec()[0].job_spec().poll_spec(now) == Ok::<TaskPoll, ExecError>(
            TaskPoll::Complete,
        ),
        stepped(pre, post, w, now),
    ensures
        post.live_spec() == pre.live_spec() - 1,
        post.queue_spec() == pre.queue_spec().subrange(1, pre.queue_spec().len() as int),
        post.parked_spec() == pre.parked_spec(),
        post.held_spec() == pre.held_spec(),
{
}

/// Tasks that resolve immediately: every poll, at any time, completes.
pub open spec fn all_immediate(q: Seq<Task>) -> bool {
    forall|i: int, n: u128|
        0 <= i < q.len() ==> #[trigger] q[i].job_spec().poll_spec(n) == Ok::<TaskPoll, ExecError>(
            TaskPoll::Complete,
        )
}

/// A runtime draining a batch of immediately-resolving tasks: nothing is
/// parked or held, every queued task completes on its first poll, and the
/// live-task counter counts exactly the queue.
pub open spec fn immediate_batch(rt: Runtime) -> bool {
    &&& rt.parked_spec().len() == 0
    &&& forall|v: int| 0 <= v < rt.held_spec().len() ==> rt.held_spec()[v] is None
    &&& all_immediate(rt.queue_spec())
    &&& rt.live_spec() == rt.queue_spec().len()
}

proof fn lemma_immediate_batch_sweep(pre: Runtime, post: Runtime, w: int, now: u128)
    requires
        immediate_batch(pre),
        0 <= w <= pre.workers_spec(),
        stepped_upto(pre, post, w, now),
    ensures
        immediate_batch(post),
        post.workers_spec() == pre.workers_spec(),
        post.live_spec() == if pre.live_spec() >= w {
            pre.live_spec() - w
        } else {
            0int
        },
    decreases w,
{
    if w == 0 {
    } else {
        let mid = choose|mid: Runtime|
            stepped_upto(pre, mid, w - 1, now) && #[trigger] stepped(mid, post, w - 1, now);
        lemma_immediate_batch_sweep(pre, mid, w - 1, now);
        if mid.queue_spec().len() > 0 {
            let rest = mid.queue_spec().subrange(1, mid.queue_spec().len() as int);
            assert(mid.queue_spec()[0].job_spec().poll_spec(now) == Ok::<TaskPoll, ExecError>(
                TaskPoll::Complete,
            ));
            assert forall|i: int, n2: u128|
                0 <= i < rest.len() implies #[trigger] rest[i].job_spec().poll_spec(n2)
                == Ok::<TaskPoll, ExecError>(TaskPoll::Complete) by {
                assert(rest[i] == mid.queue_spec()[i + 1]);
            }
        }
    }
}

/// Spawning tasks that each resolve immediately drives the live-task
/// counter down to zero: with at least one worker, every whole scheduling
/// sweep completes at least one of them while any remains, so after `k`
/// sweeps at most `live - k` remain.
pub proof fn lemma_immediate_tasks_drain(pre: Runtime, post: Runtime, k: int)
    requires
        immediate_batch(pre),
        pre.workers_spec() >= 1,
        0 <= k,
        swept(pre, post, k),
    ensures
        immediate_batch(post),
        post.workers_spec() == pre.workers_spec(),
        post.live_spec() <= if pre.live_spec() >= k {
            pre.live_spec() - k
        } else {
            0int
        },
    decreases k,
{
    if k > 0 {
        let (mid, now) = choose|mid: Runtime, now: u128|
            swept(pre, mid, k - 1) && #[trigger] stepped_upto(
                mid,
                post,
                mid.workers_spec() as int,
                now,
            );
        lemma_immediate_tasks_drain(pre, mid, k - 1);
        lemma_immediate_batch_sweep(mid, post, mid.workers_spec() as int, now);
    }
}

/// The counter reaches zero and `wait` returns: a batch of
/// immediately-resolving tasks is fully drained by as many whole scheduling
/// sweeps as there are live tasks. `wait`'s own contract certifies exactly
/// such sweeps for a spent budget, so with that many rounds it cannot
/// report `Ok(false)` — clock permitting, it returns `Ok(true)`.
pub proof fn lemma_wait_drains_immediate_batch(pre: Runtime, post: Runtime, k: int)
    requires
        immediate_batch(pre),
        pre.workers_spec() >= 1,
        k >= pre.live_spec(),
        swept(pre, post, k),
    ensures
        post.live_spec() == 0,
{
    lemma_immediate_tasks_drain(pre, post, k);
}

/// A blocking task occupies only its own worker. While worker `w1` is held
/// by one, a scheduling step of another, idle worker `w2` still completes a
/// task at the head of the queue that is ready to complete: the held task
/// neither moves nor starves it, and the completion is counted.
pub proof fn lemma_blocking_does_not_starve(pre: Runtime, post: Runtime, w1: int, w2: int, now: u128)
    requires
        pre.wf(),
        0 <= w1 < pre.workers_spec(),
        0 <= w2 < pre.workers_spec(),
        w1 != w2,
        pre.held_spec()[w1] is Some,
        pre.held_spec()[w2] is None,
        pre.queue_spec().len() > 0,
        pre.queue_spec()[0].job_spec().poll_spec(now) == Ok::<TaskPoll, ExecError>(
            TaskPoll::Complete,
        ),
        stepped(pre, post, w2, now),
    ensures
        post.held_spec()[w1] == pre.held_spec()[w1],
        post.live_spec() == pre.live_spec() - 1,
        post.queue_spec() == pre.queue_spec().subrange(1, pre.queue_spec().len() as int),
{
}

/// Invoking a task's waker is idempotent: delivering it a second time before
/// the task is next polled re-enqueues the task exactly once — the second
/// delivery changes nothing, so the task is never duplicated in the queue.
pub proof fn lemma_wake_idempotent(pre: Runtime, mid: Runtime, post: Runtime, id: u64)
    requires
        pre.wf(),
        woken(pre, mid, id),
        woken(mid, post, id),
    ensures
        unchanged(mid, post),
{
    lemma_find_id(pre.parked_spec(), id);
    let i = find_id(pre.parked_spec(), id);
    if i == -1 {
        lemma_find_id(mid.parked_spec(), id);
    } else {
        assert forall|j: int|
            0 <= j < mid.parked_spec().len() implies mid.parked_spec()[j].id_spec() != id by {
            if j < i {
                assert(mid.parked_spec()[j] == pre.parked_spec()[j]);
            } else {
                assert(mid.parked_spec()[j] == pre.parked_spec()[j + 1]);
            }
        }
        lemma_find_id(mid.parked_spec(), id);
    }
}

} // verus!

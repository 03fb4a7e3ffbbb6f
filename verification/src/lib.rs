//! A minimal cooperative task executor.
//!
//! Units of suspendable work ("tasks") run on a small number of workers under
//! a poll-based completion protocol: a worker repeatedly dequeues a task,
//! polls it once, and either drops it (complete), re-enqueues it (pending,
//! polling-only), parks it until its waker fires (pending, event-driven), or
//! keeps it on the worker until it finishes (blocking).
//!
//! The executor itself is a deterministic state machine over plain data, with
//! the wall clock passed in explicitly at every poll, so every scheduling
//! decision is stated and proved here. Worker threads, parking, and the
//! process-wide singleton that drive this state machine live outside the
//! library.

pub mod future;
pub mod runtime;

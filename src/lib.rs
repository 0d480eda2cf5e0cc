//! A small cooperative task executor and a single-shot timer computation.
//!
//! The scheduling decisions (which task is driven next, what becomes of a
//! task after one drive, when the executor has run out of work) and the
//! timer's completion protocol are plain state machines, verified here.
//! Threads, locks and the actual polling of futures live around them.
pub mod cell;
pub mod delay;
pub mod executor;
pub mod timer;

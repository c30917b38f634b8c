//! In-memory dispatch engine of a job broker.
//!
//! Producers submit named jobs, consumers advertise the job names they can
//! run, and the broker routes every job to one live consumer, retrying with
//! back-off and dead-lettering jobs that keep failing.  This crate holds the
//! broker's decisions as verified state machines: the per-job [`task`], the
//! per-name [`executor`] and the request [`manager`].  Running them (timers,
//! channels, the RPC transport) is left to the embedding program.

pub mod job;
mod chance;
pub mod queue;
pub mod task;
pub mod worker;
pub mod executor;
pub mod manager;

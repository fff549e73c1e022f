//! An in-process cron-style job scheduler with a small HTTP request
//! intake wrapper around it.
//!
//! The scheduler holds a fixed list of registered jobs, each pairing a
//! schedule predicate with an executor and a payload. On every tick it
//! captures one timestamp, decides which jobs are due against that single
//! instant, and runs the due ones in registration order, isolating each
//! job's failure from its siblings and from the tick loop itself.

pub mod bytes;
pub mod clock;
pub mod error;
pub mod head;
pub mod job;
pub mod json;
pub mod params;
pub mod request;
pub mod schedule;

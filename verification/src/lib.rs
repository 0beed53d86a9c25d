//! A concurrent search for the best candidate: workers derive candidates and
//! screen them against a shared best, a bounded channel carries the promising
//! ones to a single arbiter, and the arbiter commits strict improvements and
//! ends the search once a candidate is accepted.

pub mod arbiter;
pub mod candidate;
pub mod channel;
pub mod keys;
pub mod options;
pub mod ranking;
pub mod scheme;
pub mod shared;
pub mod signal;
pub mod text;
pub mod throughput;
pub mod worker;

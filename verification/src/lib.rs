//! Dictionary search for the preimage of a single hash digest.
//!
//! A target digest is matched against the digests of a finite list of
//! candidate words. The list is cut into contiguous slices, one per worker;
//! the workers share a stop signal and an attempt counter.

pub mod algorithm;
pub mod digest;
pub mod partition;
mod signal;
pub mod worker;
pub mod coordinator;
pub mod phase;
pub mod accounting;
pub mod protocol;

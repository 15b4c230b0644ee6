//! A batch download engine for versioned game distributions: descriptors
//! of remote files are run through a bounded pool of fetch workers, each
//! with its own retry and verification loop, and the outcomes come back
//! one per descriptor, in submission order.
//!
//! The engine itself takes no step of I/O: a driver performs the fetches
//! and feeds their results back as events, and every decision — admission
//! under the concurrency bound, retry against the attempt budget, abort
//! on server errors, checksum comparison, progress-sink ordering — is
//! made here, under contract.

pub mod client;
pub mod error;
pub mod launcher_manifest;
pub mod manifest;
pub mod progress;

//! Monte-Carlo dice-roll trials split across parallel workers, with live
//! aggregate progress.
//!
//! Each worker owns a bundle of single-writer metric cells
//! ([`analytics::Reporter`]) and publishes its running totals into them
//! without ever blocking the aggregator, which samples every bundle through
//! read-only handles and reduces the round into one display snapshot. The
//! partitioning of the trial budget, the per-trial scoring, the publication
//! discipline, the reduction, and the shutdown state machine are all
//! verified; the threads, the channel, and the terminal rendering around
//! them are not part of this crate's verified surface.

pub mod analytics;
pub mod cell;
pub mod partition;
pub mod simulation;

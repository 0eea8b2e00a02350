//! A verified library for benchmarking cryptographic hash functions: the
//! schedule of the measurement, the calibration of its batches, and the
//! reports it writes.
pub mod calendar;
pub mod text;
pub mod clock;
pub mod orders;
pub mod input;
pub mod algorithm;
pub mod bench;
pub mod backend;
pub mod headline;
pub mod provenance;
pub mod machine;
pub mod takeaway;
pub mod report;
pub mod progress;

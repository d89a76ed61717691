//! A verified file-transfer engine: range-capability probing, fixed-size
//! partitioning for concurrent range downloads, rolling throughput statistics,
//! and the decision logic of single-stream download and upload paths.
//!
//! The engine itself performs no network or disk I/O; a host driver feeds it
//! response headers, status codes and chunk sizes, and carries out the
//! requests and writes that the engine's plans call for.

pub mod clock;
pub mod format;
pub mod partition;
pub mod probe;
pub mod progress;
pub mod stats;
pub mod transfer;

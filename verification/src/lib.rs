//! Planning and conflict resolution for organizing media files into a
//! destination tree keyed by each file's capture timestamp.
//!
//! The library plans copy/move actions for a batch of files, detects
//! destination collisions both inside the batch and against paths already
//! present on disk, applies a configurable conflict policy, and reports
//! counts. All filesystem reads and writes are left to the caller: the
//! planner works on plain path strings and on a caller-supplied list of
//! destinations that already exist.

pub mod datefmt;
pub mod exif;
pub mod file;
pub mod operation;
pub mod pathname;

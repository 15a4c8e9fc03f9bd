//! USB block-device discovery and progress-tracked copying.
//!
//! The library holds the decisions: which enumerated devices count as USB
//! disks, how a device is looked up, how a copy is planned and how its
//! progress accumulates. Running processes, walking and writing files and
//! drawing progress bars are left to the caller.

pub mod cli;
pub mod device;
pub mod transfer;

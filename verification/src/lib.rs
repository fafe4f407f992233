//! Verified core of `restitch`, a tool that bundles selected configuration
//! files into a portable snapshot, restores such a snapshot onto a machine
//! (backing up whatever it overwrites), and reverts to the most recent
//! backup when a restore was wrong.
//!
//! The library contains the logic with real invariants: the shared
//! home-relative path convention, snapshot validation (all-or-nothing),
//! restore planning and the compilation of a plan into primitive filesystem
//! operations, backup-root selection, and the reversibility arguments,
//! stated over a simple model of the filesystem. Terminal interaction,
//! archive containers and manifest serialization live outside the library
//! and hand it plain values.

pub mod config;
pub mod detectors;
pub mod labels;
pub mod model;
pub mod packager;
pub mod paths;
pub mod restore;
pub mod revert;
pub mod selection;
pub mod session;
pub mod timestamp;

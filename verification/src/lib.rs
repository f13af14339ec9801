//! Core decisions of a window stasher: which windows may be stashed, how the
//! stash and restore passes account for what they did, and how the
//! crash-recovery record is read and reported.

pub mod text;
pub mod policy;
pub mod store;
pub mod stash;
pub mod recovery;
pub mod process;
pub mod capture;
pub mod tray;

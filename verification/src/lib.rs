//! Boot-time preparation of the directories that must be backed by tmpfs.
//!
//! The library holds the rules: which directories are required, how a row of
//! the kernel's mount list is read, and which operation follows which. The
//! caller performs the operations and reports how each one ended.

pub mod error;
pub mod executor;
pub mod inspect;
pub mod laws;
pub mod model;
pub mod orchestrator;
pub mod table;

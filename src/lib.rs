//! A transactional mod manager's core: how a mod package's files are laid
//! over a game directory, backed up, journaled, restored and checked.
//!
//! Everything here is a decision over plain values; the file system work
//! that carries the decisions out lives with the caller.

pub mod activate;
pub mod check;
pub mod deactivate;
pub mod error;
pub mod hashing;
pub mod journal;
pub mod package;
pub mod paths;
pub mod profile;
pub mod repair;
pub mod update;


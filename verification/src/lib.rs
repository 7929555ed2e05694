//! A registry that maps file extensions to the commands that open them,
//! with the decisions of a launcher built on it.

pub mod error;
pub mod model;
pub mod invariants;
pub mod config;
pub mod laws;
pub mod launcher;
pub mod options;
pub mod storage;

//! A versioned filesystem's metadata engine: the inode table, the version
//! store, path reconstruction, the open-file table, journaled actions and
//! the dispatcher of protocol operations, with machine-checked contracts.

pub mod action_runner;
pub mod actions;
pub mod codec;
pub mod decimal;
pub mod file;
pub mod file_handle;
pub mod markfs;
pub mod metadata;
pub mod platform;
pub mod reply;
pub mod theorems;
pub mod types;

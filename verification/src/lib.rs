//! Verified core of the `arc` infrastructure automation tool: the registries of
//! targets and tasks, the selection and validation of what runs where, the
//! ordering of tasks and the per-system execution policy.

pub mod cli;
pub mod engine;
pub mod error;
pub mod init;
pub mod inventory;
pub mod list;
pub mod logger;
pub mod memory;
pub mod names;
pub mod ordering;
pub mod progress;
pub mod registry;


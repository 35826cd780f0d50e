//! The registries that Lua scripts fill while they run: target systems, target
//! groups and tasks.

pub mod target_groups;
pub mod target_systems;
pub mod tasks;

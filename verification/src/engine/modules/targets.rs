//! The `targets` table: `targets.systems` and `targets.groups`.

pub mod groups;
pub mod systems;

use vstd::prelude::*;

use groups::GroupsTable;
use systems::SystemsTable;

verus! {

/// The `targets` table.
pub struct TargetsTable {
    pub systems: SystemsTable,
    pub groups: GroupsTable,
}

} // verus!

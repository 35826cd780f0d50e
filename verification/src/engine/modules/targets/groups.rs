//! The `targets.groups` table: scripts define a group by assigning its
//! members to its name and read a group back by indexing with its name.

use vstd::prelude::*;

use crate::engine::modules::{not_a_valid_config, quoted, FieldRead, TableRead};
use crate::error::MutexLockError;
use crate::memory::target_groups::{
    TargetGroup, TargetGroupAdditionError, TargetGroupRetrievalError, TargetGroupView,
    TargetGroupsMemory,
};
use crate::names::name_seq;
use crate::registry::{has_key, lookup, stored};

verus! {

/// A group as a script configures it.
#[derive(Debug)]
pub struct GroupConfig {
    pub members: Vec<String>,
}

/// What reading a group's table gave for its `members` field.
#[derive(Debug)]
pub struct GroupFields {
    pub members: FieldRead<Vec<String>>,
}

/// The members a group's table lists, or the message of why it lists none.
pub open spec fn group_config_result(read: TableRead<GroupFields>) -> Result<Seq<Seq<char>>, Seq<char>> {
    match read {
        TableRead::NotATable(kind_name) => Err(quoted(kind_name@) + " is not a valid group config"@),
        TableRead::Table(f) => match f.members {
            FieldRead::Unreadable => Err("\"members\" is missing"@),
            FieldRead::Invalid => Err("\"members\" is invalid"@),
            FieldRead::Value(m) => Ok(name_seq(m@)),
        },
    }
}

impl GroupConfig {
    /// Reads a group's configuration from what its table gave.
    pub fn from_table(read: TableRead<GroupFields>) -> (r: Result<GroupConfig, String>)
        ensures
            match r {
                Ok(c) => group_config_result(read) == Ok::<Seq<Seq<char>>, Seq<char>>(
                    name_seq(c.members@),
                ),
                Err(m) => group_config_result(read) == Err::<Seq<Seq<char>>, Seq<char>>(m@),
            },
    {
        match read {
            TableRead::NotATable(kind_name) => Err(
                not_a_valid_config(kind_name.as_str(), " is not a valid group config"),
            ),
            TableRead::Table(f) => match f.members {
                FieldRead::Unreadable => Err(String::from_str("\"members\" is missing")),
                FieldRead::Invalid => Err(String::from_str("\"members\" is invalid")),
                FieldRead::Value(members) => Ok(GroupConfig { members }),
            },
        }
    }
}

/// Defining a group failed.
#[derive(Debug)]
pub enum GroupAdditionError {
    Lock(MutexLockError),
    TargetGroupAddition(TargetGroupAdditionError),
}

/// Reading a group back failed.
#[derive(Debug)]
pub enum GroupRetrievalError {
    Lock(MutexLockError),
    TargetGroupRetrieval(TargetGroupRetrievalError),
}

/// The `targets.groups` table.
pub struct GroupsTable {
    pub groups_memory: TargetGroupsMemory,
}

impl GroupsTable {
    /// Defines the group `name` with the configured members; a group already
    /// defined under that name is replaced and reported as a duplicate.
    pub fn add(&mut self, name: String, config: GroupConfig) -> (r: Result<(), GroupAdditionError>)
        requires
            old(self).groups_memory.wf(),
        ensures
            final(self).groups_memory.wf(),
            final(self).groups_memory@ == stored::<TargetGroup>(
                old(self).groups_memory@,
                TargetGroupView { name: name@, members: name_seq(config.members@) },
            ),
            r is Err <==> has_key::<TargetGroup>(old(self).groups_memory@, name@),
            r is Err ==> (r matches Err(
                GroupAdditionError::TargetGroupAddition(TargetGroupAdditionError::DuplicateGroup(e)),
            ) && e.0@ == name@),
    {
        match self.groups_memory.add(TargetGroup { name, members: config.members }) {
            Ok(()) => Ok(()),
            Err(e) => Err(GroupAdditionError::TargetGroupAddition(e)),
        }
    }

    /// The group defined under `name`.
    pub fn get(&self, name: String) -> (r: Result<TargetGroup, GroupRetrievalError>)
        ensures
            match r {
                Ok(g) => lookup::<TargetGroup>(self.groups_memory@, name@) == Some(g@),
                Err(GroupRetrievalError::TargetGroupRetrieval(_)) => lookup::<TargetGroup>(
                    self.groups_memory@,
                    name@,
                ) is None,
                Err(GroupRetrievalError::Lock(_)) => false,
            },
    {
        match self.groups_memory.get(name.as_str()) {
            Ok(g) => Ok(g),
            Err(e) => Err(GroupRetrievalError::TargetGroupRetrieval(e)),
        }
    }
}

} // verus!

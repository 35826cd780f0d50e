//! The scripts' registry of group configurations, keyed by the name they are
//! assigned under.

use vstd::prelude::*;

use crate::error::MutexLockError;
use crate::names::{copy_names, name_seq};
use crate::registry::{
    copy_entries, find_index, has_key, lookup, store_entry, stored, unique_keys, views, Keyed,
};

verus! {

/// The members of a group.
#[derive(Debug)]
pub struct GroupConfig {
    pub members: Vec<String>,
}

/// A group configuration with the name it is registered under.
#[derive(Debug)]
pub struct GroupEntry {
    pub name: String,
    pub config: GroupConfig,
}

/// Abstract value of a registered group: its name and its members.
pub struct GroupEntryView {
    pub name: Seq<char>,
    pub members: Seq<Seq<char>>,
}

impl View for GroupEntry {
    type V = GroupEntryView;

    open spec fn view(&self) -> GroupEntryView {
        GroupEntryView { name: self.name@, members: name_seq(self.config.members@) }
    }
}

impl Keyed for GroupEntry {
    open spec fn key_of(v: GroupEntryView) -> Seq<char> {
        v.name
    }

    fn key(&self) -> (k: &String) {
        &self.name
    }

    fn duplicate(&self) -> (c: Self) {
        GroupEntry {
            name: self.name.clone(),
            config: GroupConfig { members: copy_names(&self.config.members) },
        }
    }
}

/// Adding a group failed.
#[derive(Debug)]
pub enum GroupAdditionError {
    Lock(MutexLockError),
    DuplicateGroup(DuplicateGroupError),
}

/// A group of this name was already registered.
#[derive(Debug)]
pub struct DuplicateGroupError(pub String);

/// Retrieving a group failed.
#[derive(Debug)]
pub enum GroupAcquisitionError {
    Lock(MutexLockError),
    GroupNotDefined(GroupNotDefinedError),
}

/// No group of this name is registered.
#[derive(Debug)]
pub struct GroupNotDefinedError(pub String);

/// The registered groups, in registration order, with distinct names.
#[derive(Debug)]
pub struct Groups {
    entries: Vec<GroupEntry>,
}

impl View for Groups {
    type V = Seq<GroupEntryView>;

    closed spec fn view(&self) -> Seq<GroupEntryView> {
        views(self.entries@)
    }
}

impl Groups {
    /// Registered groups have distinct names.
    pub open spec fn wf(&self) -> bool {
        unique_keys::<GroupEntry>(self@)
    }

    /// An empty registry.
    pub fn new() -> (g: Groups)
        ensures
            g.wf(),
            g@ == Seq::<GroupEntryView>::empty(),
    {
        let g = Groups { entries: Vec::new() };
        assert(g@ =~= Seq::<GroupEntryView>::empty());
        g
    }

    /// Every registered group.
    pub fn all(&self) -> (r: Result<Vec<GroupEntry>, GroupAcquisitionError>)
        ensures
            r matches Ok(groups) && views(groups@) == self@,
    {
        Ok(copy_entries(&self.entries))
    }

    /// Registers `config` under `name`. A group already registered under that
    /// name is replaced and the addition is reported as a duplicate.
    pub fn add(&mut self, name: String, config: GroupConfig) -> (r: Result<(), GroupAdditionError>)
        requires
            old(self).wf(),
        ensures
            final(self).wf(),
            final(self)@ == stored::<GroupEntry>(
                old(self)@,
                GroupEntryView { name: name@, members: name_seq(config.members@) },
            ),
            r is Err <==> has_key::<GroupEntry>(old(self)@, name@),
            r matches Err(GroupAdditionError::DuplicateGroup(e)) ==> e.0@ == name@,
    {
        let entry = GroupEntry { name: name.clone(), config };
        proof {
            crate::registry::lemma_stored::<GroupEntry>(self@, entry@);
        }
        if store_entry(&mut self.entries, entry) {
            Err(GroupAdditionError::DuplicateGroup(DuplicateGroupError(name)))
        } else {
            Ok(())
        }
    }

    /// The members of the group registered under `name`.
    pub fn get(&self, name: String) -> (r: Result<GroupConfig, GroupAcquisitionError>)
        ensures
            match r {
                Ok(c) => lookup::<GroupEntry>(self@, name@) matches Some(g) && g.members == name_seq(
                    c.members@,
                ),
                Err(GroupAcquisitionError::GroupNotDefined(e)) => lookup::<GroupEntry>(
                    self@,
                    name@,
                ) is None && e.0@ == name@,
                Err(GroupAcquisitionError::Lock(_)) => false,
            },
    {
        match find_index(&self.entries, &name) {
            Some(i) => Ok(GroupConfig { members: copy_names(&self.entries[i].config.members) }),
            None => Err(GroupAcquisitionError::GroupNotDefined(GroupNotDefinedError(name))),
        }
    }
}

impl Default for Groups {
    fn default() -> (g: Self)
        ensures
            g.wf(),
            g@ == Seq::<GroupEntryView>::empty(),
    {
        Groups::new()
    }
}

} // verus!

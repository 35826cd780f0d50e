//! Registry of target groups, keyed by group name.

use vstd::prelude::*;

use crate::names::{copy_names, name_seq};
use crate::registry::{
    copy_entries, find_index, has_key, lookup, store_entry, stored, unique_keys, views, Keyed,
};

verus! {

/// A named group of target systems.
#[derive(Debug)]
pub struct TargetGroup {
    pub name: String,
    pub members: Vec<String>,
}

/// Abstract value of a target group.
pub struct TargetGroupView {
    pub name: Seq<char>,
    pub members: Seq<Seq<char>>,
}

impl View for TargetGroup {
    type V = TargetGroupView;

    open spec fn view(&self) -> TargetGroupView {
        TargetGroupView { name: self.name@, members: name_seq(self.members@) }
    }
}

impl Keyed for TargetGroup {
    open spec fn key_of(v: TargetGroupView) -> Seq<char> {
        v.name
    }

    fn key(&self) -> (k: &String) {
        &self.name
    }

    fn duplicate(&self) -> (c: Self) {
        TargetGroup { name: self.name.clone(), members: copy_names(&self.members) }
    }
}

/// The groups known to the engine, as a vector of groups with distinct names.
pub type TargetGroups = Vec<TargetGroup>;

/// The registry of target groups.
#[derive(Debug)]
pub struct TargetGroupsMemory {
    memory: TargetGroups,
}

/// Adding a group failed.
#[derive(Debug)]
pub enum TargetGroupAdditionError {
    DuplicateGroup(DuplicateTargetGroupError),
}

/// A group of this name was already registered.
#[derive(Debug)]
pub struct DuplicateTargetGroupError(pub String);

/// Retrieving a group failed.
#[derive(Debug)]
pub enum TargetGroupRetrievalError {
    GroupNotDefinedError(TargetGroupNotDefinedError),
}

/// No group of this name is registered.
#[derive(Debug)]
pub struct TargetGroupNotDefinedError(pub String);

impl View for TargetGroupsMemory {
    type V = Seq<TargetGroupView>;

    closed spec fn view(&self) -> Seq<TargetGroupView> {
        views(self.memory@)
    }
}

impl TargetGroupsMemory {
    /// Registered groups have distinct names.
    pub open spec fn wf(&self) -> bool {
        unique_keys::<TargetGroup>(self@)
    }

    /// An empty registry.
    pub fn new() -> (m: Self)
        ensures
            m.wf(),
            m@ == Seq::<TargetGroupView>::empty(),
    {
        let m = TargetGroupsMemory { memory: Vec::new() };
        assert(m@ =~= Seq::<TargetGroupView>::empty());
        m
    }

    /// A copy of every registered group.
    pub fn all(&self) -> (groups: TargetGroups)
        ensures
            views(groups@) == self@,
    {
        copy_entries(&self.memory)
    }

    /// Registers `config` under its name. A group already registered under that
    /// name is replaced and the addition is reported as a duplicate.
    pub fn add(&mut self, config: TargetGroup) -> (r: Result<(), TargetGroupAdditionError>)
        requires
            old(self).wf(),
        ensures
            final(self).wf(),
            final(self)@ == stored::<TargetGroup>(old(self)@, config@),
            r is Err <==> has_key::<TargetGroup>(old(self)@, config@.name),
            r matches Err(TargetGroupAdditionError::DuplicateGroup(e)) ==> e.0@ == config@.name,
    {
        let name = config.name.clone();
        proof {
            crate::registry::lemma_stored::<TargetGroup>(self@, config@);
        }
        let replaced = store_entry(&mut self.memory, config);
        if replaced {
            Err(TargetGroupAdditionError::DuplicateGroup(DuplicateTargetGroupError(name)))
        } else {
            Ok(())
        }
    }

    /// A copy of the group registered under `name`.
    pub fn get(&self, name: &str) -> (r: Result<TargetGroup, TargetGroupRetrievalError>)
        ensures
            match r {
                Ok(g) => lookup::<TargetGroup>(self@, name@) == Some(g@),
                Err(TargetGroupRetrievalError::GroupNotDefinedError(e)) => lookup::<TargetGroup>(
                    self@,
                    name@,
                ) is None && e.0@ == name@,
            },
    {
        let key = String::from_str(name);
        match find_index(&self.memory, &key) {
            Some(i) => Ok(self.memory[i].duplicate()),
            None => Err(
                TargetGroupRetrievalError::GroupNotDefinedError(TargetGroupNotDefinedError(key)),
            ),
        }
    }
}

impl Default for TargetGroupsMemory {
    fn default() -> (m: Self)
        ensures
            m.wf(),
            m@ == Seq::<TargetGroupView>::empty(),
    {
        Self::new()
    }
}

} // verus!

//! The targets the scripts define: systems and the groups they form.

pub mod groups;
pub mod systems;

use vstd::prelude::*;

use crate::engine::selection::lemma_filter_push;
use crate::names::{contains_name, name_seq, name_set};
use crate::registry::{has_key, keys, views};
use groups::{GroupAcquisitionError, GroupEntry, GroupEntryView, Groups};
use systems::{SystemAcquisitionError, SystemEntry, SystemEntryView, Systems};

verus! {

/// The systems and groups registered by the scripts.
#[derive(Debug)]
pub struct Targets {
    pub systems: Systems,
    pub groups: Groups,
}

/// Reading the targets failed.
#[derive(Debug)]
pub enum TargetsAcquisitionError {
    SystemAcquisition(SystemAcquisitionError),
    GroupAcquisition(GroupAcquisitionError),
}

/// The targets are inconsistent, or could not be read.
#[derive(Debug)]
pub enum TargetsValidationError {
    SystemAcquisition(SystemAcquisitionError),
    GroupAcquisition(GroupAcquisitionError),
    GroupMembersNotDefined(GroupMembersNotDefinedError),
}

/// A group (named first) has members that are not registered systems.
#[derive(Debug)]
pub struct GroupMembersNotDefinedError(pub String, pub Vec<String>);

/// The members of `g` that are not registered systems, in member order, with
/// repeats kept.
pub open spec fn undefined_members(g: GroupEntryView, systems: Seq<SystemEntryView>) -> Seq<Seq<char>> {
    g.members.filter(|m: Seq<char>| !has_key::<SystemEntry>(systems, m))
}

/// The names of `requested` that are not among `known`, in order, with
/// repeats kept.
fn absent_names(requested: &Vec<String>, known: &Vec<String>) -> (absent: Vec<String>)
    ensures
        name_seq(absent@) == name_seq(requested@).filter(|m: Seq<char>| !name_set(known@).contains(m)),
{
    let ghost pred = |m: Seq<char>| !name_set(known@).contains(m);
    let mut absent: Vec<String> = Vec::new();
    let mut i: usize = 0;
    while i < requested.len()
        invariant
            i <= requested.len(),
            pred == (|m: Seq<char>| !name_set(known@).contains(m)),
            name_seq(absent@) == name_seq(requested@).subrange(0, i as int).filter(pred),
        decreases requested.len() - i,
    {
        let ghost before = name_seq(requested@).subrange(0, i as int);
        proof {
            assert(name_seq(requested@).subrange(0, i as int + 1) =~= before.push(requested@[i as int]@));
            lemma_filter_push(before, requested@[i as int]@, pred);
        }
        if !contains_name(known, &requested[i]) {
            let ghost prev = name_seq(absent@);
            absent.push(requested[i].clone());
            assert(name_seq(absent@) =~= prev.push(requested@[i as int]@));
        }
        i = i + 1;
    }
    assert(name_seq(requested@).subrange(0, requested.len() as int) =~= name_seq(requested@));
    absent
}

/// Every member of `g` is a registered system.
pub open spec fn members_defined(g: GroupEntryView, systems: Seq<SystemEntryView>) -> bool {
    forall|m: Seq<char>| g.members.contains(m) ==> has_key::<SystemEntry>(systems, m)
}

impl Targets {
    /// No targets.
    pub fn new() -> (t: Targets)
        ensures
            t.systems.wf(),
            t.groups.wf(),
            t.systems@ == Seq::<SystemEntryView>::empty(),
            t.groups@ == Seq::<GroupEntryView>::empty(),
    {
        Targets { systems: Systems::new(), groups: Groups::new() }
    }

    /// Every registered system and every registered group.
    pub fn targets(&self) -> (r: Result<(Vec<SystemEntry>, Vec<GroupEntry>), TargetsAcquisitionError>)
        ensures
            r matches Ok(t) && views(t.0@) == self.systems@ && views(t.1@) == self.groups@,
    {
        let systems = match self.systems.all() {
            Ok(s) => s,
            Err(e) => {
                return Err(TargetsAcquisitionError::SystemAcquisition(e));
            },
        };
        let groups = match self.groups.all() {
            Ok(g) => g,
            Err(e) => {
                return Err(TargetsAcquisitionError::GroupAcquisition(e));
            },
        };
        Ok((systems, groups))
    }

    /// Every member of every group must be a registered system. The error names
    /// the first group, in registration order, that has members which are not,
    /// with those members in member order, repeats kept.
    pub fn validate(&self) -> (r: Result<(), TargetsValidationError>)
        ensures
            r is Ok <==> forall|k: int|
                0 <= k < self.groups@.len() ==> members_defined(#[trigger] self.groups@[k], self.systems@),
            r is Err ==> (r matches Err(TargetsValidationError::GroupMembersNotDefined(e)) && exists|k: int|
                0 <= k < self.groups@.len() && (#[trigger] self.groups@[k]).name == e.0@
                    && !members_defined(self.groups@[k], self.systems@)
                    && name_seq(e.1@) == undefined_members(self.groups@[k], self.systems@)
                    && forall|j: int| 0 <= j < k ==> members_defined(#[trigger] self.groups@[j], self.systems@)),
    {
        let systems = match self.systems.all() {
            Ok(s) => s,
            Err(e) => {
                return Err(TargetsValidationError::SystemAcquisition(e));
            },
        };
        let groups = match self.groups.all() {
            Ok(g) => g,
            Err(e) => {
                return Err(TargetsValidationError::GroupAcquisition(e));
            },
        };
        let known = keys(&systems);
        let ghost gs = views(groups@);
        let mut i: usize = 0;
        while i < groups.len()
            invariant
                gs == views(groups@),
                gs == self.groups@,
                views(systems@) == self.systems@,
                forall|m: Seq<char>| #[trigger] name_set(known@).contains(m) <==> has_key::<SystemEntry>(self.systems@, m),
                i <= groups.len(),
                forall|j: int| 0 <= j < i ==> members_defined(#[trigger] gs[j], self.systems@),
            decreases groups.len() - i,
        {
            let group = &groups[i];
            let missing = absent_names(&group.config.members, &known);
            assert(gs[i as int].members == name_seq(group.config.members@));
            assert((|m: Seq<char>| !name_set(known@).contains(m)) =~= (|m: Seq<char>| !has_key::<SystemEntry>(self.systems@, m)));
            assert(name_seq(missing@) == undefined_members(gs[i as int], self.systems@));
            if missing.len() > 0 {
                proof {
                    let u = undefined_members(gs[i as int], self.systems@);
                    let pred = |m: Seq<char>| !has_key::<SystemEntry>(self.systems@, m);
                    assert(u.len() > 0);
                    gs[i as int].members.lemma_filter_pred(pred, 0);
                    gs[i as int].members.lemma_filter_contains_rev(pred, u[0]);
                    assert(u.contains(u[0]));
                }
                return Err(
                    TargetsValidationError::GroupMembersNotDefined(
                        GroupMembersNotDefinedError(group.name.clone(), missing),
                    ),
                );
            }
            assert(members_defined(gs[i as int], self.systems@)) by {
                assert forall|m: Seq<char>| gs[i as int].members.contains(m) implies has_key::<SystemEntry>(self.systems@, m) by {
                    if !has_key::<SystemEntry>(self.systems@, m) {
                        let pred = |m: Seq<char>| !has_key::<SystemEntry>(self.systems@, m);
                        let q = choose|q: int| 0 <= q < gs[i as int].members.len() && gs[i as int].members[q] == m;
                        gs[i as int].members.lemma_filter_contains(pred, q);
                        assert(undefined_members(gs[i as int], self.systems@).len() > 0);
                    }
                }
            }
            i = i + 1;
        }
        Ok(())
    }
}

} // verus!

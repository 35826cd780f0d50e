//! Registry of target systems, keyed by system name.

use vstd::prelude::*;

use crate::registry::{
    copy_entries, find_index, has_key, lookup, store_entry, stored, unique_keys, views, Keyed,
};

verus! {

/// A system that tasks run on.
#[derive(Debug)]
pub struct TargetSystem {
    pub name: String,
    pub kind: TargetSystemKind,
}

/// Whether a system is reached over SSH or is the machine arc runs on.
#[derive(Debug)]
pub enum TargetSystemKind {
    Remote(RemoteTargetSystem),
    Local,
}

/// Connection details of a remote system. The address is kept as the text in
/// which the parsed IP address prints.
#[derive(Debug)]
pub struct RemoteTargetSystem {
    pub address: String,
    pub port: u16,
    pub user: String,
}

/// Abstract value of a system's kind.
pub enum TargetSystemKindView {
    Remote { address: Seq<char>, port: u16, user: Seq<char> },
    Local,
}

/// Abstract value of a target system.
pub struct TargetSystemView {
    pub name: Seq<char>,
    pub kind: TargetSystemKindView,
}

impl View for TargetSystemKind {
    type V = TargetSystemKindView;

    open spec fn view(&self) -> TargetSystemKindView {
        match self {
            TargetSystemKind::Remote(r) => TargetSystemKindView::Remote {
                address: r.address@,
                port: r.port,
                user: r.user@,
            },
            TargetSystemKind::Local => TargetSystemKindView::Local,
        }
    }
}

impl View for TargetSystem {
    type V = TargetSystemView;

    open spec fn view(&self) -> TargetSystemView {
        TargetSystemView { name: self.name@, kind: self.kind@ }
    }
}

impl TargetSystemKind {
    /// A copy of this kind.
    pub fn duplicate(&self) -> (c: Self)
        ensures
            c@ == self@,
    {
        match self {
            TargetSystemKind::Remote(r) => TargetSystemKind::Remote(
                RemoteTargetSystem { address: r.address.clone(), port: r.port, user: r.user.clone() },
            ),
            TargetSystemKind::Local => TargetSystemKind::Local,
        }
    }
}

impl Keyed for TargetSystem {
    open spec fn key_of(v: TargetSystemView) -> Seq<char> {
        v.name
    }

    fn key(&self) -> (k: &String) {
        &self.name
    }

    fn duplicate(&self) -> (c: Self) {
        TargetSystem { name: self.name.clone(), kind: self.kind.duplicate() }
    }
}

/// The systems known to the engine, as a vector of systems with distinct names.
pub type TargetSystems = Vec<TargetSystem>;

/// The registry of target systems.
#[derive(Debug)]
pub struct TargetSystemsMemory {
    memory: TargetSystems,
}

/// Adding a system failed.
#[derive(Debug)]
pub enum TargetSystemAdditionError {
    DuplicateSystem(DuplicateTargetSystemError),
}

/// A system of this name was already registered.
#[derive(Debug)]
pub struct DuplicateTargetSystemError(pub String);

/// Retrieving a system failed.
#[derive(Debug)]
pub enum TargetSystemRetrievalError {
    SystemNotDefinedError(TargetSystemNotDefinedError),
}

/// No system of this name is registered.
#[derive(Debug)]
pub struct TargetSystemNotDefinedError(pub String);

impl View for TargetSystemsMemory {
    type V = Seq<TargetSystemView>;

    closed spec fn view(&self) -> Seq<TargetSystemView> {
        views(self.memory@)
    }
}

impl TargetSystemsMemory {
    /// Registered systems have distinct names.
    pub open spec fn wf(&self) -> bool {
        unique_keys::<TargetSystem>(self@)
    }

    /// An empty registry.
    pub fn new() -> (m: Self)
        ensures
            m.wf(),
            m@ == Seq::<TargetSystemView>::empty(),
    {
        let m = TargetSystemsMemory { memory: Vec::new() };
        assert(m@ =~= Seq::<TargetSystemView>::empty());
        m
    }

    /// A copy of every registered system.
    pub fn all(&self) -> (systems: TargetSystems)
        ensures
            views(systems@) == self@,
    {
        copy_entries(&self.memory)
    }

    /// Registers `config` under its name. A system already registered under that
    /// name is replaced and the addition is reported as a duplicate.
    pub fn add(&mut self, config: TargetSystem) -> (r: Result<(), TargetSystemAdditionError>)
        requires
            old(self).wf(),
        ensures
            final(self).wf(),
            final(self)@ == stored::<TargetSystem>(old(self)@, config@),
            r is Err <==> has_key::<TargetSystem>(old(self)@, config@.name),
            r matches Err(TargetSystemAdditionError::DuplicateSystem(e)) ==> e.0@ == config@.name,
    {
        let name = config.name.clone();
        proof {
            crate::registry::lemma_stored::<TargetSystem>(self@, config@);
        }
        let replaced = store_entry(&mut self.memory, config);
        if replaced {
            Err(TargetSystemAdditionError::DuplicateSystem(DuplicateTargetSystemError(name)))
        } else {
            Ok(())
        }
    }

    /// A copy of the system registered under `name`.
    pub fn get(&self, name: &str) -> (r: Result<TargetSystem, TargetSystemRetrievalError>)
        ensures
            match r {
                Ok(s) => lookup::<TargetSystem>(self@, name@) == Some(s@),
                Err(TargetSystemRetrievalError::SystemNotDefinedError(e)) => lookup::<TargetSystem>(
                    self@,
                    name@,
                ) is None && e.0@ == name@,
            },
    {
        let key = String::from_str(name);
        match find_index(&self.memory, &key) {
            Some(i) => Ok(self.memory[i].duplicate()),
            None => Err(
                TargetSystemRetrievalError::SystemNotDefinedError(TargetSystemNotDefinedError(key)),
            ),
        }
    }
}

impl Default for TargetSystemsMemory {
    fn default() -> (m: Self)
        ensures
            m.wf(),
            m@ == Seq::<TargetSystemView>::empty(),
    {
        Self::new()
    }
}

} // verus!

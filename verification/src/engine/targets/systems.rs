//! The scripts' registry of system configurations, keyed by the name they are
//! assigned under.

use vstd::prelude::*;

use crate::error::MutexLockError;
use crate::registry::{
    copy_entries, find_index, has_key, lookup, store_entry, stored, unique_keys, views, Keyed,
};

verus! {

/// How to reach a remote system. The address is the text in which the parsed
/// IP address prints.
#[derive(Debug)]
pub struct SystemConfig {
    pub name: String,
    pub address: String,
    pub port: u16,
    pub user: String,
}

/// Abstract value of a system configuration.
pub struct SystemConfigView {
    pub name: Seq<char>,
    pub address: Seq<char>,
    pub port: u16,
    pub user: Seq<char>,
}

impl View for SystemConfig {
    type V = SystemConfigView;

    open spec fn view(&self) -> SystemConfigView {
        SystemConfigView {
            name: self.name@,
            address: self.address@,
            port: self.port,
            user: self.user@,
        }
    }
}

impl SystemConfig {
    /// A copy of this configuration.
    pub fn duplicate(&self) -> (c: SystemConfig)
        ensures
            c@ == self@,
    {
        SystemConfig {
            name: self.name.clone(),
            address: self.address.clone(),
            port: self.port,
            user: self.user.clone(),
        }
    }
}

/// A system configuration with the name it is registered under.
#[derive(Debug)]
pub struct SystemEntry {
    pub name: String,
    pub config: SystemConfig,
}

/// Abstract value of a registered system.
pub struct SystemEntryView {
    pub name: Seq<char>,
    pub config: SystemConfigView,
}

impl View for SystemEntry {
    type V = SystemEntryView;

    open spec fn view(&self) -> SystemEntryView {
        SystemEntryView { name: self.name@, config: self.config@ }
    }
}

impl Keyed for SystemEntry {
    open spec fn key_of(v: SystemEntryView) -> Seq<char> {
        v.name
    }

    fn key(&self) -> (k: &String) {
        &self.name
    }

    fn duplicate(&self) -> (c: Self) {
        SystemEntry { name: self.name.clone(), config: self.config.duplicate() }
    }
}

/// Adding a system failed.
#[derive(Debug)]
pub enum SystemAdditionError {
    Lock(MutexLockError),
    DuplicateSystem(DuplicateSystemError),
}

/// A system of this name was already registered.
#[derive(Debug)]
pub struct DuplicateSystemError(pub String);

/// Retrieving a system failed.
#[derive(Debug)]
pub enum SystemAcquisitionError {
    Lock(MutexLockError),
    SystemNotDefinedError(SystemNotDefinedError),
}

/// No system of this name is registered.
#[derive(Debug)]
pub struct SystemNotDefinedError(pub String);

/// The registered systems, in registration order, with distinct names.
#[derive(Debug)]
pub struct Systems {
    entries: Vec<SystemEntry>,
}

impl View for Systems {
    type V = Seq<SystemEntryView>;

    closed spec fn view(&self) -> Seq<SystemEntryView> {
        views(self.entries@)
    }
}

impl Systems {
    /// Registered systems have distinct names.
    pub open spec fn wf(&self) -> bool {
        unique_keys::<SystemEntry>(self@)
    }

    /// An empty registry.
    pub fn new() -> (s: Systems)
        ensures
            s.wf(),
            s@ == Seq::<SystemEntryView>::empty(),
    {
        let s = Systems { entries: Vec::new() };
        assert(s@ =~= Seq::<SystemEntryView>::empty());
        s
    }

    /// Every registered system.
    pub fn all(&self) -> (r: Result<Vec<SystemEntry>, SystemAcquisitionError>)
        ensures
            r matches Ok(systems) && views(systems@) == self@,
    {
        Ok(copy_entries(&self.entries))
    }

    /// Registers `config` under `name`. A system already registered under that
    /// name is replaced and the addition is reported as a duplicate.
    pub fn add(&mut self, name: String, config: SystemConfig) -> (r: Result<(), SystemAdditionError>)
        requires
            old(self).wf(),
        ensures
            final(self).wf(),
            final(self)@ == stored::<SystemEntry>(
                old(self)@,
                SystemEntryView { name: name@, config: config@ },
            ),
            r is Err <==> has_key::<SystemEntry>(old(self)@, name@),
            r matches Err(SystemAdditionError::DuplicateSystem(e)) ==> e.0@ == name@,
    {
        let entry = SystemEntry { name: name.clone(), config };
        proof {
            crate::registry::lemma_stored::<SystemEntry>(self@, entry@);
        }
        if store_entry(&mut self.entries, entry) {
            Err(SystemAdditionError::DuplicateSystem(DuplicateSystemError(name)))
        } else {
            Ok(())
        }
    }

    /// The configuration registered under `name`.
    pub fn get(&self, name: String) -> (r: Result<SystemConfig, SystemAcquisitionError>)
        ensures
            match r {
                Ok(c) => lookup::<SystemEntry>(self@, name@) matches Some(s) && s.config == c@,
                Err(SystemAcquisitionError::SystemNotDefinedError(e)) => lookup::<SystemEntry>(
                    self@,
                    name@,
                ) is None && e.0@ == name@,
                Err(SystemAcquisitionError::Lock(_)) => false,
            },
    {
        match find_index(&self.entries, &name) {
            Some(i) => Ok(self.entries[i].config.duplicate()),
            None => Err(SystemAcquisitionError::SystemNotDefinedError(SystemNotDefinedError(name))),
        }
    }
}

impl Default for Systems {
    fn default() -> (s: Self)
        ensures
            s.wf(),
            s@ == Seq::<SystemEntryView>::empty(),
    {
        Systems::new()
    }
}

} // verus!

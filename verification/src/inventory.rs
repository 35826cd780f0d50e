//! An inventory of systems and groups, where a group may only list systems
//! that are already registered.

use vstd::prelude::*;

use crate::engine::validation::missing_from;
use crate::error::MutexLockError;
use crate::names::{copy_names, lemma_empty_names, name_seq, name_set};
use crate::registry::{copy_entries, has_key, keys, store_entry, stored, views, Keyed};

verus! {

/// The SSH port a system listens on unless its configuration says otherwise.
pub fn default_port() -> (p: u16)
    ensures
        p == 22,
{
    22
}

/// How to reach a system. The address is the text in which the parsed IP
/// address prints.
#[derive(Debug)]
pub struct SystemConfig {
    pub address: String,
    pub port: u16,
    pub user: String,
}

/// The members of a group.
#[derive(Debug)]
pub struct GroupConfig {
    pub members: Vec<String>,
}

/// A system registered under a name.
#[derive(Debug)]
pub struct InventorySystem {
    pub name: String,
    pub config: SystemConfig,
}

/// Abstract value of a registered system.
pub struct InventorySystemView {
    pub name: Seq<char>,
    pub address: Seq<char>,
    pub port: u16,
    pub user: Seq<char>,
}

impl View for InventorySystem {
    type V = InventorySystemView;

    open spec fn view(&self) -> InventorySystemView {
        InventorySystemView {
            name: self.name@,
            address: self.config.address@,
            port: self.config.port,
            user: self.config.user@,
        }
    }
}

impl Keyed for InventorySystem {
    open spec fn key_of(v: InventorySystemView) -> Seq<char> {
        v.name
    }

    fn key(&self) -> (k: &String) {
        &self.name
    }

    fn duplicate(&self) -> (c: Self) {
        InventorySystem {
            name: self.name.clone(),
            config: SystemConfig {
                address: self.config.address.clone(),
                port: self.config.port,
                user: self.config.user.clone(),
            },
        }
    }
}

/// A group registered under a name.
#[derive(Debug)]
pub struct InventoryGroup {
    pub name: String,
    pub config: GroupConfig,
}

/// Abstract value of a registered group.
pub struct InventoryGroupView {
    pub name: Seq<char>,
    pub members: Seq<Seq<char>>,
}

impl View for InventoryGroup {
    type V = InventoryGroupView;

    open spec fn view(&self) -> InventoryGroupView {
        InventoryGroupView { name: self.name@, members: name_seq(self.config.members@) }
    }
}

impl Keyed for InventoryGroup {
    open spec fn key_of(v: InventoryGroupView) -> Seq<char> {
        v.name
    }

    fn key(&self) -> (k: &String) {
        &self.name
    }

    fn duplicate(&self) -> (c: Self) {
        InventoryGroup {
            name: self.name.clone(),
            config: GroupConfig { members: copy_names(&self.config.members) },
        }
    }
}

/// The registered systems and groups, each in registration order.
#[derive(Debug)]
pub struct Inventory {
    pub systems: Vec<InventorySystem>,
    pub groups: Vec<InventoryGroup>,
}

/// A group lists systems that are not registered.
#[derive(Debug)]
pub struct UnregisteredGroupMembersError(pub Vec<String>);

/// Registering a group failed.
#[derive(Debug)]
pub enum GroupAdditionError {
    Lock(MutexLockError),
    UnregisteredGroupMembers(UnregisteredGroupMembersError),
}

/// Where scripts register their inventory.
#[derive(Debug)]
pub struct InventoryRegistrationModule {
    inventory: Inventory,
}

impl InventoryRegistrationModule {
    /// The registered systems.
    pub closed spec fn systems(&self) -> Seq<InventorySystemView> {
        views(self.inventory.systems@)
    }

    /// The registered groups.
    pub closed spec fn groups(&self) -> Seq<InventoryGroupView> {
        views(self.inventory.groups@)
    }

    /// An empty inventory.
    pub fn new() -> (m: InventoryRegistrationModule)
        ensures
            m.systems() == Seq::<InventorySystemView>::empty(),
            m.groups() == Seq::<InventoryGroupView>::empty(),
    {
        let m = InventoryRegistrationModule {
            inventory: Inventory { systems: Vec::new(), groups: Vec::new() },
        };
        assert(m.systems() =~= Seq::<InventorySystemView>::empty());
        assert(m.groups() =~= Seq::<InventoryGroupView>::empty());
        m
    }

    /// Registers `config` under `name`, replacing a system registered under
    /// that name.
    pub fn add_system(&mut self, name: String, config: SystemConfig) -> (r: Result<(), MutexLockError>)
        ensures
            r is Ok,
            final(self).systems() == stored::<InventorySystem>(
                old(self).systems(),
                InventorySystemView {
                    name: name@,
                    address: config.address@,
                    port: config.port,
                    user: config.user@,
                },
            ),
            final(self).groups() == old(self).groups(),
    {
        store_entry(&mut self.inventory.systems, InventorySystem { name, config });
        Ok(())
    }

    /// Registers `config` under `name`, replacing a group registered under that
    /// name. Every member must be a registered system; the error lists, each
    /// once, those that are not, and nothing is registered.
    pub fn add_group(&mut self, name: String, config: GroupConfig) -> (r: Result<(), GroupAdditionError>)
        ensures
            final(self).systems() == old(self).systems(),
            ({
                let missing = name_set(config.members@).filter(
                    |m: Seq<char>| !has_key::<InventorySystem>(old(self).systems(), m),
                );
                if missing =~= Set::<Seq<char>>::empty() {
                    &&& r is Ok
                    &&& final(self).groups() == stored::<InventoryGroup>(
                        old(self).groups(),
                        InventoryGroupView { name: name@, members: name_seq(config.members@) },
                    )
                } else {
                    &&& r matches Err(GroupAdditionError::UnregisteredGroupMembers(e))
                    &&& name_set(e.0@) == missing
                    &&& name_seq(e.0@).no_duplicates()
                    &&& final(self).groups() == old(self).groups()
                }
            }),
    {
        let known = keys(&self.inventory.systems);
        let missing = missing_from(&config.members, &known);
        assert(name_set(missing@) =~= name_set(config.members@).filter(
            |m: Seq<char>| !has_key::<InventorySystem>(self.systems(), m),
        ));
        proof {
            lemma_empty_names(missing@);
        }
        if missing.len() > 0 {
            return Err(
                GroupAdditionError::UnregisteredGroupMembers(UnregisteredGroupMembersError(missing)),
            );
        }
        store_entry(&mut self.inventory.groups, InventoryGroup { name, config });
        Ok(())
    }

    /// A copy of the inventory.
    pub fn inventory(&self) -> (r: Result<Inventory, MutexLockError>)
        ensures
            r matches Ok(inv) && views(inv.systems@) == self.systems() && views(inv.groups@)
                == self.groups(),
    {
        Ok(
            Inventory {
                systems: copy_entries(&self.inventory.systems),
                groups: copy_entries(&self.inventory.groups),
            },
        )
    }
}

} // verus!

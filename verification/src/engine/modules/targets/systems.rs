//! The `targets.systems` table: scripts define a system by assigning its
//! configuration to its name and read a system back by indexing with its name.

use vstd::prelude::*;

use crate::engine::modules::{not_a_valid_config, quoted, FieldRead, TableRead};
use crate::error::MutexLockError;
use crate::memory::target_systems::{
    RemoteTargetSystem, TargetSystem, TargetSystemAdditionError, TargetSystemKind,
    TargetSystemKindView, TargetSystemRetrievalError, TargetSystemView, TargetSystemsMemory,
};
use crate::names::str_equal;
use crate::registry::{has_key, lookup, stored};

verus! {

/// A system as a script configures it.
#[derive(Debug)]
pub enum SystemConfig {
    Local,
    Remote { address: String, port: u16, user: String },
}

/// Abstract value of a system configuration.
pub enum SystemConfigView {
    Local,
    Remote { address: Seq<char>, port: u16, user: Seq<char> },
}

impl View for SystemConfig {
    type V = SystemConfigView;

    open spec fn view(&self) -> SystemConfigView {
        match self {
            SystemConfig::Local => SystemConfigView::Local,
            SystemConfig::Remote { address, port, user } => SystemConfigView::Remote {
                address: address@,
                port: *port,
                user: user@,
            },
        }
    }
}

/// The kinds of system a `type` field names.
#[derive(Debug, Clone, Copy, PartialEq, Eq, Structural)]
pub enum SystemType {
    Local,
    Remote,
}

impl Default for SystemType {
    fn default() -> (t: SystemType)
        ensures
            t == SystemType::Remote,
    {
        SystemType::Remote
    }
}

/// The kind of system `value` names, if any.
pub open spec fn parsed_system_type(value: Seq<char>) -> Option<SystemType> {
    if value == "local"@ {
        Some(SystemType::Local)
    } else if value == "remote"@ {
        Some(SystemType::Remote)
    } else {
        None
    }
}

impl SystemType {
    /// Reads a kind of system from `"local"` or `"remote"`.
    pub fn try_from_string(value: String) -> (r: Result<SystemType, ()>)
        ensures
            match r {
                Ok(t) => parsed_system_type(value@) == Some(t),
                Err(()) => parsed_system_type(value@) is None,
            },
    {
        if str_equal(value.as_str(), "local") {
            Ok(SystemType::Local)
        } else if str_equal(value.as_str(), "remote") {
            Ok(SystemType::Remote)
        } else {
            Err(())
        }
    }
}

/// What reading a system's `type` field gave.
#[derive(Debug)]
pub enum TypeField {
    /// The table could not be read at `type`.
    Unreadable,
    /// The field is absent.
    Nil,
    /// The field holds this text.
    Text(String),
    /// The field holds something that is not text.
    NotText,
}

/// What reading each field of a system's table gave. The port is read as
/// `None` when it is not a port number, and as `Some(None)` when absent.
#[derive(Debug)]
pub struct SystemFields {
    pub type_field: TypeField,
    pub address: FieldRead<String>,
    pub user: FieldRead<String>,
    pub port: Option<Option<u16>>,
}

/// The message for a `type` field that names no kind of system.
pub open spec fn invalid_type_message() -> Seq<char> {
    "\"type\" is invalid - must be either \"remote\" or \"local\""@
}

/// The kind of system a `type` field selects: remote when absent or
/// unreadable.
pub open spec fn system_type_choice(field: TypeField) -> Option<SystemType> {
    match field {
        TypeField::Unreadable => Some(SystemType::Remote),
        TypeField::Nil => Some(SystemType::Remote),
        TypeField::Text(t) => parsed_system_type(t@),
        TypeField::NotText => None,
    }
}

/// The configuration a system's table makes, or the message of the first
/// field, in the order type, address, user, port, that makes none. A local
/// system reads no further field; a remote one listens on port 22 unless its
/// table says otherwise.
pub open spec fn system_config_result(read: TableRead<SystemFields>) -> Result<SystemConfigView, Seq<char>> {
    match read {
        TableRead::NotATable(kind_name) => Err(quoted(kind_name@) + " is not a valid system config"@),
        TableRead::Table(f) => match system_type_choice(f.type_field) {
            None => Err(invalid_type_message()),
            Some(SystemType::Local) => Ok(SystemConfigView::Local),
            Some(SystemType::Remote) => match f.address {
                FieldRead::Unreadable => Err("\"address\" is missing"@),
                FieldRead::Invalid => Err("\"address\" is invalid"@),
                FieldRead::Value(address) => match f.user {
                    FieldRead::Unreadable => Err("\"user\" is missing"@),
                    FieldRead::Invalid => Err("\"user\" is invalid"@),
                    FieldRead::Value(user) => match f.port {
                        None => Err("\"port\" is invalid"@),
                        Some(port) => Ok(
                            SystemConfigView::Remote {
                                address: address@,
                                port: match port {
                                    Some(p) => p,
                                    None => 22,
                                },
                                user: user@,
                            },
                        ),
                    },
                },
            },
        },
    }
}

impl SystemConfig {
    /// Reads a system's configuration from what its table gave.
    pub fn from_table(read: TableRead<SystemFields>) -> (r: Result<SystemConfig, String>)
        ensures
            match r {
                Ok(c) => system_config_result(read) == Ok::<SystemConfigView, Seq<char>>(c@),
                Err(m) => system_config_result(read) == Err::<SystemConfigView, Seq<char>>(m@),
            },
    {
        match read {
            TableRead::NotATable(kind_name) => Err(
                not_a_valid_config(kind_name.as_str(), " is not a valid system config"),
            ),
            TableRead::Table(f) => {
                let system_type = match f.type_field {
                    TypeField::Unreadable => SystemType::Remote,
                    TypeField::Nil => SystemType::default(),
                    TypeField::Text(t) => match SystemType::try_from_string(t) {
                        Ok(st) => st,
                        Err(()) => {
                            return Err(invalid_type());
                        },
                    },
                    TypeField::NotText => {
                        return Err(invalid_type());
                    },
                };
                match system_type {
                    SystemType::Local => Ok(SystemConfig::Local),
                    SystemType::Remote => {
                        let address = match f.address {
                            FieldRead::Unreadable => {
                                return Err(String::from_str("\"address\" is missing"));
                            },
                            FieldRead::Invalid => {
                                return Err(String::from_str("\"address\" is invalid"));
                            },
                            FieldRead::Value(a) => a,
                        };
                        let user = match f.user {
                            FieldRead::Unreadable => {
                                return Err(String::from_str("\"user\" is missing"));
                            },
                            FieldRead::Invalid => {
                                return Err(String::from_str("\"user\" is invalid"));
                            },
                            FieldRead::Value(u) => u,
                        };
                        let port = match f.port {
                            None => {
                                return Err(String::from_str("\"port\" is invalid"));
                            },
                            Some(Some(p)) => p,
                            Some(None) => 22,
                        };
                        Ok(SystemConfig::Remote { address, port, user })
                    },
                }
            },
        }
    }
}

/// The message for a `type` field that names no kind of system.
fn invalid_type() -> (m: String)
    ensures
        m@ == invalid_type_message(),
{
    String::from_str("\"type\" is invalid - must be either \"remote\" or \"local\"")
}

/// A remote system's address is not an IP address.
#[derive(Debug)]
pub struct AddrParseError;

/// Defining a system failed.
#[derive(Debug)]
pub enum SystemAdditionError {
    Lock(MutexLockError),
    SystemAddition(TargetSystemAdditionError),
    AddrParse(AddrParseError),
}

/// Reading a system back failed.
#[derive(Debug)]
pub enum SystemRetrievalError {
    Lock(MutexLockError),
    TargetSystemRetrieval(TargetSystemRetrievalError),
}

/// The system named `name` that a configuration defines, its address being
/// `address` (the printed form of the parsed address) when it is remote.
pub open spec fn configured_system(name: Seq<char>, c: SystemConfigView, address: Seq<char>) -> TargetSystemView {
    TargetSystemView {
        name,
        kind: match c {
            SystemConfigView::Local => TargetSystemKindView::Local,
            SystemConfigView::Remote { address: _, port, user } => TargetSystemKindView::Remote {
                address,
                port,
                user,
            },
        },
    }
}

/// The `targets.systems` table.
pub struct SystemsTable {
    pub systems_memory: TargetSystemsMemory,
}

impl SystemsTable {
    /// Defines the system `name` from `config`. For a remote system,
    /// `parsed_address` is the printed form of its address parsed as an IP
    /// address, or `None` when the address does not parse, in which case
    /// nothing is defined. A system already defined under that name is
    /// replaced and reported as a duplicate.
    pub fn add(&mut self, name: String, config: SystemConfig, parsed_address: Option<String>) -> (r: Result<
        (),
        SystemAdditionError,
    >)
        requires
            old(self).systems_memory.wf(),
        ensures
            final(self).systems_memory.wf(),
            (config is Remote && parsed_address is None) ==> {
                &&& r matches Err(SystemAdditionError::AddrParse(_))
                &&& final(self).systems_memory@ == old(self).systems_memory@
            },
            !(config is Remote && parsed_address is None) ==> {
                let address = match parsed_address {
                    Some(a) => a@,
                    None => Seq::<char>::empty(),
                };
                &&& final(self).systems_memory@ == stored::<TargetSystem>(
                    old(self).systems_memory@,
                    configured_system(name@, config@, address),
                )
                &&& (r is Err <==> has_key::<TargetSystem>(old(self).systems_memory@, name@))
                &&& r is Err ==> (r matches Err(
                    SystemAdditionError::SystemAddition(
                        TargetSystemAdditionError::DuplicateSystem(e),
                    ),
                ) && e.0@ == name@)
            },
    {
        let kind = match config {
            SystemConfig::Local => TargetSystemKind::Local,
            SystemConfig::Remote { address: _, port, user } => match parsed_address {
                Some(address) => TargetSystemKind::Remote(RemoteTargetSystem { address, port, user }),
                None => {
                    return Err(SystemAdditionError::AddrParse(AddrParseError));
                },
            },
        };
        match self.systems_memory.add(TargetSystem { name, kind }) {
            Ok(()) => Ok(()),
            Err(e) => Err(SystemAdditionError::SystemAddition(e)),
        }
    }

    /// The system defined under `name`.
    pub fn get(&self, name: String) -> (r: Result<TargetSystem, SystemRetrievalError>)
        ensures
            match r {
                Ok(s) => lookup::<TargetSystem>(self.systems_memory@, name@) == Some(s@),
                Err(SystemRetrievalError::TargetSystemRetrieval(_)) => lookup::<TargetSystem>(
                    self.systems_memory@,
                    name@,
                ) is None,
                Err(SystemRetrievalError::Lock(_)) => false,
            },
    {
        match self.systems_memory.get(name.as_str()) {
            Ok(s) => Ok(s),
            Err(e) => Err(SystemRetrievalError::TargetSystemRetrieval(e)),
        }
    }
}

} // verus!

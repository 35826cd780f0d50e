//! What the `system` object passed to a task's handler shows of its system.

use vstd::prelude::*;

use crate::memory::target_systems::{TargetSystemKind, TargetSystemKindView};

verus! {

impl TargetSystemKind {
    /// `"remote"` or `"local"`.
    pub fn kind_name(&self) -> (t: String)
        ensures
            t@ == match self@ {
                TargetSystemKindView::Remote { .. } => "remote"@,
                TargetSystemKindView::Local => "local"@,
            },
    {
        match self {
            TargetSystemKind::Remote(_) => String::from_str("remote"),
            TargetSystemKind::Local => String::from_str("local"),
        }
    }

    /// The system's address; none for a local system.
    pub fn address(&self) -> (a: Option<String>)
        ensures
            match self@ {
                TargetSystemKindView::Remote { address, .. } => a matches Some(x) && x@ == address,
                TargetSystemKindView::Local => a is None,
            },
    {
        match self {
            TargetSystemKind::Remote(remote) => Some(remote.address.clone()),
            TargetSystemKind::Local => None,
        }
    }

    /// The system's SSH port; none for a local system.
    pub fn port(&self) -> (p: Option<u16>)
        ensures
            match self@ {
                TargetSystemKindView::Remote { port, .. } => p == Some(port),
                TargetSystemKindView::Local => p is None,
            },
    {
        match self {
            TargetSystemKind::Remote(remote) => Some(remote.port),
            TargetSystemKind::Local => None,
        }
    }

    /// The user the system is reached as; none for a local system.
    pub fn user(&self) -> (u: Option<String>)
        ensures
            match self@ {
                TargetSystemKindView::Remote { user, .. } => u matches Some(x) && x@ == user,
                TargetSystemKindView::Local => u is None,
            },
    {
        match self {
            TargetSystemKind::Remote(remote) => Some(remote.user.clone()),
            TargetSystemKind::Local => None,
        }
    }
}

} // verus!

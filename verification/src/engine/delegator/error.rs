//! Failures of operations, split into the user's errors (a missing file, a
//! denied permission), which a script can handle, and infrastructure errors,
//! which end the run.

use vstd::prelude::*;

use crate::engine::delegator::{host, ssh};

verus! {

/// A failure that is either the user's or the infrastructure's.
#[derive(Debug)]
pub enum ExecutionError<U, I> {
    User(U),
    Infrastructure(I),
}

impl<U, I> ExecutionError<U, I> {
    /// Whether a script can handle this failure.
    pub fn is_user_error(&self) -> (r: bool)
        ensures
            r == self is User,
    {
        match self {
            ExecutionError::User(_) => true,
            ExecutionError::Infrastructure(_) => false,
        }
    }
}

/// A failed operation on a remote or on a local system.
#[derive(Debug)]
pub enum OperationError {
    Remote(ExecutionError<ssh::UserError, ssh::InfrastructureError>),
    Local(ExecutionError<host::UserError, host::InfrastructureError>),
}

impl OperationError {
    /// Whether a script can handle this failure.
    pub fn is_user_error(&self) -> (r: bool)
        ensures
            r == match self {
                OperationError::Remote(e) => e is User,
                OperationError::Local(e) => e is User,
            },
    {
        match self {
            OperationError::Remote(e) => e.is_user_error(),
            OperationError::Local(e) => e.is_user_error(),
        }
    }
}

} // verus!

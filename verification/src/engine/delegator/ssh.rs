//! Operations on a remote system over SSH: how their failures are classified.

use vstd::prelude::*;

use crate::engine::delegator::error::ExecutionError as GenericExecutionError;

verus! {

#[verifier::external_type_specification]
#[verifier::external_body]
pub struct ExSshError(ssh2::Error);

/// Connecting to a remote system failed.
#[derive(Debug)]
pub enum ConnectionError {
    TcpConnection(std::io::Error),
    Ssh(ssh2::Error),
}

/// Running a command over SSH failed.
#[derive(Debug)]
pub enum SshError {
    Io(std::io::Error),
    Ssh(ssh2::Error),
}

/// A failure that the script can handle.
#[derive(Debug)]
pub enum UserError {
    NotFound(ssh2::Error),
    PermissionDenied(ssh2::Error),
    IsADirectory,
    NotADirectory(String),
    Failure(ssh2::Error),
}

/// A failure of the connection or of the remote system.
#[derive(Debug)]
pub enum InfrastructureError {
    NeedsReconnect(ssh2::Error),
    OtherSsh(ssh2::Error),
    OtherIo(std::io::Error),
}

/// A failed operation over SSH.
pub type ExecutionError = GenericExecutionError<UserError, InfrastructureError>;

/// Where an SSH failure comes from, with its code: the SFTP subsystem or the
/// SSH session.
#[derive(Debug, Clone, Copy, PartialEq, Eq, Structural)]
pub enum SshErrorCode {
    Sftp(i32),
    Session(i32),
}

/// SFTP: no such file.
pub const SFTP_NO_SUCH_FILE: i32 = 2;

/// SFTP: permission denied.
pub const SFTP_PERMISSION_DENIED: i32 = 3;

/// SFTP: bad message.
pub const SFTP_BAD_MESSAGE: i32 = 5;

/// SFTP: no connection.
pub const SFTP_NO_CONNECTION: i32 = 6;

/// SFTP: connection lost.
pub const SFTP_CONNECTION_LOST: i32 = 7;

/// Session: the end of a directory listing.
pub const SSH_SESSION_ERROR_CODE_FILE_ERROR: i32 = -16;

/// Session: an SFTP failure reported without its SFTP status (as removing a
/// directory and creating a link report theirs).
pub const LIBSSH2_ERROR_SFTP_PROTOCOL: i32 = -31;

/// `r` is the classification of `error`, of code `code`: a lost or broken
/// SFTP connection and any other session failure are the infrastructure's; a
/// missing file, a denied permission and any other SFTP failure are the
/// user's.
pub open spec fn ssh_classified(code: SshErrorCode, error: ssh2::Error, r: ExecutionError) -> bool {
    match code {
        SshErrorCode::Sftp(c) => if c == SFTP_BAD_MESSAGE || c == SFTP_NO_CONNECTION || c
            == SFTP_CONNECTION_LOST {
            r == ExecutionError::Infrastructure(InfrastructureError::OtherSsh(error))
        } else if c == SFTP_NO_SUCH_FILE {
            r == ExecutionError::User(UserError::NotFound(error))
        } else if c == SFTP_PERMISSION_DENIED {
            r == ExecutionError::User(UserError::PermissionDenied(error))
        } else {
            r == ExecutionError::User(UserError::Failure(error))
        },
        SshErrorCode::Session(c) => if c == LIBSSH2_ERROR_SFTP_PROTOCOL {
            r == ExecutionError::User(UserError::Failure(error))
        } else {
            r == ExecutionError::Infrastructure(InfrastructureError::NeedsReconnect(error))
        },
    }
}

/// Classifies `error`, of code `code` (what `ssh2::Error::code` gives), that
/// happened at `_context_path`.
pub fn classify_ssh_error(code: SshErrorCode, error: ssh2::Error, _context_path: &str) -> (r: ExecutionError)
    ensures
        ssh_classified(code, error, r),
{
    match code {
        SshErrorCode::Sftp(c) => {
            if c == SFTP_BAD_MESSAGE || c == SFTP_NO_CONNECTION || c == SFTP_CONNECTION_LOST {
                ExecutionError::Infrastructure(InfrastructureError::OtherSsh(error))
            } else if c == SFTP_NO_SUCH_FILE {
                ExecutionError::User(UserError::NotFound(error))
            } else if c == SFTP_PERMISSION_DENIED {
                ExecutionError::User(UserError::PermissionDenied(error))
            } else {
                ExecutionError::User(UserError::Failure(error))
            }
        },
        SshErrorCode::Session(c) => {
            if c == LIBSSH2_ERROR_SFTP_PROTOCOL {
                ExecutionError::User(UserError::Failure(error))
            } else {
                ExecutionError::Infrastructure(InfrastructureError::NeedsReconnect(error))
            }
        },
    }
}

/// An I/O failure while streaming over SSH is the infrastructure's.
pub fn classify_io_error(error: std::io::Error) -> (r: ExecutionError)
    ensures
        r == ExecutionError::Infrastructure(InfrastructureError::OtherIo(error)),
{
    ExecutionError::Infrastructure(InfrastructureError::OtherIo(error))
}

/// The failure means that the path does not exist.
pub fn is_missing(code: SshErrorCode) -> (r: bool)
    ensures
        r == (code == SshErrorCode::Sftp(SFTP_NO_SUCH_FILE)),
{
    match code {
        SshErrorCode::Sftp(c) => c == SFTP_NO_SUCH_FILE,
        SshErrorCode::Session(_) => false,
    }
}

/// The failure marks the end of a directory listing.
pub fn is_end_of_listing(code: SshErrorCode) -> (r: bool)
    ensures
        r == (code == SshErrorCode::Session(SSH_SESSION_ERROR_CODE_FILE_ERROR)),
{
    match code {
        SshErrorCode::Sftp(_) => false,
        SshErrorCode::Session(c) => c == SSH_SESSION_ERROR_CODE_FILE_ERROR,
    }
}

} // verus!

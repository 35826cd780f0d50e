//! Operations on the machine arc runs on: how their failures are classified,
//! and what a command's exit code is.

use vstd::prelude::*;

use crate::engine::delegator::error::ExecutionError as GenericExecutionError;

verus! {

#[verifier::external_type_specification]
#[verifier::external_body]
pub struct ExIoError(std::io::Error);

/// The machine arc runs on.
#[derive(Debug, Clone, Copy)]
pub struct HostClient;

/// A thread reading a command's output panicked.
#[derive(Debug)]
pub struct OutputReaderPanicError;

/// Reading a command's output failed.
#[derive(Debug)]
pub struct OutputReaderError(pub std::io::Error);

/// Running a command on this machine failed.
#[derive(Debug)]
pub enum CommandError {
    Io(std::io::Error),
    OutputReaderPanic(OutputReaderPanicError),
    OutputReader(OutputReaderError),
}

/// A failure that the script can handle.
#[derive(Debug)]
pub enum UserError {
    NotFound(std::io::Error),
    PermissionDenied(std::io::Error),
    AlreadyExists(std::io::Error),
    IsADirectory,
    NotADirectory(String),
    DirectoryNotEmpty(std::io::Error),
    ReadOnlyFilesystem(std::io::Error),
    FileTooLarge(std::io::Error),
    CrossesDevices(std::io::Error),
    QuotaExceeded(std::io::Error),
    InvalidFilename(std::io::Error),
    ResourceBusy(std::io::Error),
    ExecutableFileBusy(std::io::Error),
    TooManyLinks(std::io::Error),
}

/// A failure of the machine itself.
#[derive(Debug)]
pub struct InfrastructureError(pub std::io::Error);

/// A failed operation on this machine.
pub type ExecutionError = GenericExecutionError<UserError, InfrastructureError>;

/// The kinds of I/O failure that are told apart.
#[derive(Debug, Clone, Copy, PartialEq, Eq, Structural)]
pub enum IoErrorKind {
    NotFound,
    PermissionDenied,
    AlreadyExists,
    IsADirectory,
    NotADirectory,
    DirectoryNotEmpty,
    ReadOnlyFilesystem,
    FileTooLarge,
    CrossesDevices,
    QuotaExceeded,
    InvalidFilename,
    ResourceBusy,
    ExecutableFileBusy,
    TooManyLinks,
    /// Any other kind: a network failure, an interruption, an unexpected end
    /// of data and the like.
    Other,
}

/// `r` is the classification of `error`, of kind `kind`, that happened at
/// `path`: each kind that the user can act on is the user's error of that
/// name, carrying the error (or the path, for a path that is not a
/// directory); every other kind is an infrastructure error.
pub open spec fn io_classified(kind: IoErrorKind, error: std::io::Error, path: Seq<char>, r: ExecutionError) -> bool {
    match kind {
        IoErrorKind::NotFound => r == ExecutionError::User(UserError::NotFound(error)),
        IoErrorKind::PermissionDenied => r == ExecutionError::User(UserError::PermissionDenied(error)),
        IoErrorKind::AlreadyExists => r == ExecutionError::User(UserError::AlreadyExists(error)),
        IoErrorKind::IsADirectory => r == ExecutionError::User(UserError::IsADirectory),
        IoErrorKind::NotADirectory => r matches ExecutionError::User(UserError::NotADirectory(p))
            && p@ == path,
        IoErrorKind::DirectoryNotEmpty => r == ExecutionError::User(UserError::DirectoryNotEmpty(error)),
        IoErrorKind::ReadOnlyFilesystem => r == ExecutionError::User(UserError::ReadOnlyFilesystem(error)),
        IoErrorKind::FileTooLarge => r == ExecutionError::User(UserError::FileTooLarge(error)),
        IoErrorKind::CrossesDevices => r == ExecutionError::User(UserError::CrossesDevices(error)),
        IoErrorKind::QuotaExceeded => r == ExecutionError::User(UserError::QuotaExceeded(error)),
        IoErrorKind::InvalidFilename => r == ExecutionError::User(UserError::InvalidFilename(error)),
        IoErrorKind::ResourceBusy => r == ExecutionError::User(UserError::ResourceBusy(error)),
        IoErrorKind::ExecutableFileBusy => r == ExecutionError::User(UserError::ExecutableFileBusy(error)),
        IoErrorKind::TooManyLinks => r == ExecutionError::User(UserError::TooManyLinks(error)),
        IoErrorKind::Other => r == ExecutionError::Infrastructure(InfrastructureError(error)),
    }
}

/// Classifies `error`, which happened at `context_path`, by its kind `kind`
/// (the kind `std::io::Error::kind` gives, with the kinds that are not told
/// apart read as `Other`).
pub fn classify_io_error(kind: IoErrorKind, error: std::io::Error, context_path: &str) -> (r: ExecutionError)
    ensures
        io_classified(kind, error, context_path@, r),
{
    match kind {
        IoErrorKind::NotFound => ExecutionError::User(UserError::NotFound(error)),
        IoErrorKind::PermissionDenied => ExecutionError::User(UserError::PermissionDenied(error)),
        IoErrorKind::AlreadyExists => ExecutionError::User(UserError::AlreadyExists(error)),
        IoErrorKind::IsADirectory => ExecutionError::User(UserError::IsADirectory),
        IoErrorKind::NotADirectory => ExecutionError::User(
            UserError::NotADirectory(String::from_str(context_path)),
        ),
        IoErrorKind::DirectoryNotEmpty => ExecutionError::User(UserError::DirectoryNotEmpty(error)),
        IoErrorKind::ReadOnlyFilesystem => ExecutionError::User(UserError::ReadOnlyFilesystem(error)),
        IoErrorKind::FileTooLarge => ExecutionError::User(UserError::FileTooLarge(error)),
        IoErrorKind::CrossesDevices => ExecutionError::User(UserError::CrossesDevices(error)),
        IoErrorKind::QuotaExceeded => ExecutionError::User(UserError::QuotaExceeded(error)),
        IoErrorKind::InvalidFilename => ExecutionError::User(UserError::InvalidFilename(error)),
        IoErrorKind::ResourceBusy => ExecutionError::User(UserError::ResourceBusy(error)),
        IoErrorKind::ExecutableFileBusy => ExecutionError::User(UserError::ExecutableFileBusy(error)),
        IoErrorKind::TooManyLinks => ExecutionError::User(UserError::TooManyLinks(error)),
        IoErrorKind::Other => ExecutionError::Infrastructure(InfrastructureError(error)),
    }
}

/// The exit code a command reports: `-1` when it ended without one (killed by
/// a signal).
pub fn exit_code(code: Option<i32>) -> (c: i32)
    ensures
        c == match code {
            Some(k) => k,
            None => -1i32,
        },
{
    match code {
        Some(k) => k,
        None => -1,
    }
}

/// The permission bits of a file mode.
pub fn permission_bits(mode: u32) -> (bits: u32)
    ensures
        bits == mode & 0o777u32,
{
    mode & 0o777u32
}

} // verus!

//! Errors of filesystem operations.
use vstd::prelude::*;

verus! {

/// Why a filesystem operation failed.
#[derive(Debug, Clone, Copy, PartialEq, Eq, Structural)]
pub enum VfsError {
    /// The entity is not there.
    NotFound,
    /// The caller lacks the privilege.
    PermissionDenied,
    /// The entity is already there.
    AlreadyExists,
    /// An argument is not acceptable.
    InvalidInput,
    /// Input or output failed.
    Io,
    /// The operation is not offered.
    OperationNotSupported,
    /// The wait was interrupted.
    Interrupted,
    /// Any other error of the kernel, by its number.
    Other(i32),
}

/// The result of a filesystem operation.
pub type VfsResult<T> = Result<T, VfsError>;

/// The error that a daemon's error number stands for. Both signs are read alike.
pub open spec fn error_of_errno(errno: int) -> VfsError {
    let number = if errno < 0 {
        -errno
    } else {
        errno
    };
    if number == 2 {
        VfsError::NotFound
    } else if number == 13 {
        VfsError::PermissionDenied
    } else if number == 17 {
        VfsError::AlreadyExists
    } else if number == 22 {
        VfsError::InvalidInput
    } else {
        VfsError::Io
    }
}

/// Gives the error that a daemon's error number stands for.
pub fn errno_error(errno: i32) -> (e: VfsError)
    ensures
        e == error_of_errno(errno as int),
{
    if errno == 2 || errno == -2 {
        VfsError::NotFound
    } else if errno == 13 || errno == -13 {
        VfsError::PermissionDenied
    } else if errno == 17 || errno == -17 {
        VfsError::AlreadyExists
    } else if errno == 22 || errno == -22 {
        VfsError::InvalidInput
    } else {
        VfsError::Io
    }
}

/// Each error stands for one Linux error number, in either sign, and every other
/// number is an input/output error.
pub proof fn law_errors_by_number(errno: int)
    ensures
        error_of_errno(errno) == error_of_errno(-errno),
        error_of_errno(errno) == VfsError::NotFound <==> errno == 2 || errno == -2,
        error_of_errno(errno) == VfsError::PermissionDenied <==> errno == 13 || errno == -13,
        error_of_errno(errno) == VfsError::AlreadyExists <==> errno == 17 || errno == -17,
        error_of_errno(errno) == VfsError::InvalidInput <==> errno == 22 || errno == -22,
        error_of_errno(errno) == VfsError::Io <==> !(errno == 2 || errno == -2 || errno == 13
            || errno == -13 || errno == 17 || errno == -17 || errno == 22 || errno == -22),
{
}

} // verus!

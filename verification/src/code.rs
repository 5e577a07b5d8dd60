//! The return codes a helper process exits with, and what they become on the
//! supervisor's side.

use vstd::prelude::*;

verus! {

/// The outcome of one helper run, exchanged through the process exit status.
#[derive(Debug, Clone, Copy, PartialEq, Eq, Structural)]
pub enum ReturnCode {
    Success,
    /// The requested path does not exist, or a directory could not be listed.
    FileNotFound,
    /// The authentication stack rejected the credentials.
    LoginFailed,
    /// A file was requested, the path names a directory.
    UnexpectedType,
    /// The target user may not open the path.
    PermissionDenied,
    /// The helper was stopped by a termination signal.
    SignalTerm,
    /// The helper aborted.
    Panic,
    /// The exit status was unavailable or is none of the above.
    Unknown,
}

/// HTTP status of a missing file.
pub const STATUS_NOT_FOUND: u16 = 404;

/// HTTP status of rejected credentials.
pub const STATUS_UNAUTHORIZED: u16 = 401;

/// HTTP status of a path the user may not read.
pub const STATUS_FORBIDDEN: u16 = 403;

/// HTTP status of the redirect from a file URL to a directory URL.
pub const STATUS_FOUND: u16 = 302;

/// HTTP status of every other failure.
pub const STATUS_INTERNAL_ERROR: u16 = 500;

/// The return code that stands for the exit status `status`.
pub open spec fn code_of_status(status: int) -> ReturnCode {
    if status == 0 {
        ReturnCode::Success
    } else if status == 1 {
        ReturnCode::FileNotFound
    } else if status == 2 {
        ReturnCode::LoginFailed
    } else if status == 3 {
        ReturnCode::UnexpectedType
    } else if status == 4 {
        ReturnCode::PermissionDenied
    } else if status == 99 {
        ReturnCode::SignalTerm
    } else if status == 101 {
        ReturnCode::Panic
    } else {
        ReturnCode::Unknown
    }
}

impl ReturnCode {
    /// The exit status that carries this code.
    pub open spec fn status(self) -> int {
        match self {
            ReturnCode::Success => 0,
            ReturnCode::FileNotFound => 1,
            ReturnCode::LoginFailed => 2,
            ReturnCode::UnexpectedType => 3,
            ReturnCode::PermissionDenied => 4,
            ReturnCode::SignalTerm => 99,
            ReturnCode::Panic => 101,
            ReturnCode::Unknown => 1000,
        }
    }

    /// The HTTP status a failure with this code is answered with.
    pub open spec fn spec_http_status(self) -> int {
        match self {
            ReturnCode::FileNotFound => 404,
            ReturnCode::LoginFailed => 401,
            ReturnCode::PermissionDenied => 403,
            ReturnCode::UnexpectedType => 302,
            _ => 500,
        }
    }

    /// The exit status a helper leaves with to report this code.
    pub fn exit_code(self) -> (status: i32)
        ensures
            status == self.status(),
    {
        match self {
            ReturnCode::Success => 0,
            ReturnCode::FileNotFound => 1,
            ReturnCode::LoginFailed => 2,
            ReturnCode::UnexpectedType => 3,
            ReturnCode::PermissionDenied => 4,
            ReturnCode::SignalTerm => 99,
            ReturnCode::Panic => 101,
            ReturnCode::Unknown => 1000,
        }
    }

    /// Reads an exit status. Every status that no code is defined for is
    /// `Unknown`.
    pub fn from_code(status: i32) -> (code: ReturnCode)
        ensures
            code == code_of_status(status as int),
    {
        match status {
            1 => ReturnCode::FileNotFound,
            2 => ReturnCode::LoginFailed,
            3 => ReturnCode::UnexpectedType,
            4 => ReturnCode::PermissionDenied,
            101 => ReturnCode::Panic,
            99 => ReturnCode::SignalTerm,
            0 => ReturnCode::Success,
            _ => ReturnCode::Unknown,
        }
    }

    /// Reads what a finished process reports: its exit status, or nothing
    /// where a signal ended it. A missing status is `Unknown`.
    pub fn from_exit_status(status: Option<i32>) -> (code: ReturnCode)
        ensures
            code == match status {
                Some(s) => code_of_status(s as int),
                None => ReturnCode::Unknown,
            },
    {
        match status {
            Some(s) => ReturnCode::from_code(s),
            None => ReturnCode::Unknown,
        }
    }

    /// The HTTP status a failure with this code is answered with: one status
    /// for each code, `500` for all that have none of their own.
    pub fn http_status(self) -> (status: u16)
        ensures
            status == self.spec_http_status(),
    {
        match self {
            ReturnCode::FileNotFound => STATUS_NOT_FOUND,
            ReturnCode::LoginFailed => STATUS_UNAUTHORIZED,
            ReturnCode::PermissionDenied => STATUS_FORBIDDEN,
            ReturnCode::UnexpectedType => STATUS_FOUND,
            _ => STATUS_INTERNAL_ERROR,
        }
    }
}

/// The HTTP status that answers a helper which left with `status` before it
/// produced any payload.
pub fn status_of_exit(status: Option<i32>) -> (http: u16)
    ensures
        http == match status {
            Some(s) => code_of_status(s as int).spec_http_status(),
            None => 500,
        },
{
    ReturnCode::from_exit_status(status).http_status()
}

/// Reading the exit status of a code gives the code back: no two codes share
/// a status.
pub proof fn lemma_status_round_trip(code: ReturnCode)
    ensures
        code_of_status(code.status()) == code,
        i32::MIN <= code.status() <= i32::MAX,
{
}

/// An exit status that no code is defined for is read as `Unknown` and
/// answered with `500`.
pub proof fn lemma_undefined_status_is_internal_error(status: int)
    requires
        forall|code: ReturnCode| code.status() != status,
    ensures
        code_of_status(status) == ReturnCode::Unknown,
        code_of_status(status).spec_http_status() == 500,
{
    assert(ReturnCode::Success.status() != status);
    assert(ReturnCode::FileNotFound.status() != status);
    assert(ReturnCode::LoginFailed.status() != status);
    assert(ReturnCode::UnexpectedType.status() != status);
    assert(ReturnCode::PermissionDenied.status() != status);
    assert(ReturnCode::SignalTerm.status() != status);
    assert(ReturnCode::Panic.status() != status);
}

/// Every code is answered with one of the five statuses, and each status but
/// `500` belongs to one code only.
pub proof fn lemma_http_status_total(a: ReturnCode, b: ReturnCode)
    ensures
        a.spec_http_status() == 404 || a.spec_http_status() == 401 || a.spec_http_status() == 403
            || a.spec_http_status() == 302 || a.spec_http_status() == 500,
        a.spec_http_status() == b.spec_http_status() && a.spec_http_status() != 500 ==> a == b,
{
}

} // verus!

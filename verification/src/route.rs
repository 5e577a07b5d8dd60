//! What the supervisor makes of a request before it starts a helper, and how
//! it answers when the helper failed.

use vstd::prelude::*;
use vstd::string::{StringExecFns, StringSliceAdditionalSpecFns};
use crate::code::{ReturnCode, STATUS_FOUND, STATUS_UNAUTHORIZED};
use crate::frame::Kind;

verus! {

/// The byte `/`.
pub const SLASH: u8 = 47;

/// The answer to a request that did not end in a payload.
#[derive(Debug, Clone, PartialEq, Eq)]
pub enum Answer {
    /// An empty response with this status.
    Status(u16),
    /// A redirect with this status to this location.
    Redirect { status: u16, location: String },
}

/// What a path asks for: a listing where it is empty or ends in `/`, a file
/// otherwise.
pub open spec fn kind_of_path(path: Seq<u8>) -> Kind {
    if path.len() == 0 || path.last() == SLASH {
        Kind::Dir
    } else {
        Kind::File
    }
}

/// Decides how a request is served. `filepath` is the path of the URL
/// without the `/` it begins with. A request without a password is answered
/// with `401` and no helper is started. A path that ends in `/` asks for the
/// listing of that directory, the empty path for the listing of `./`, and
/// every other path for a file.
pub fn route<'a>(has_password: bool, filepath: &'a str) -> (plan: Result<(Kind, &'a str), u16>)
    ensures
        !has_password ==> plan == Err::<(Kind, &str), u16>(401u16),
        has_password ==> plan is Ok && plan->Ok_0.0 == kind_of_path(filepath.spec_bytes())
            && plan->Ok_0.1@ == if filepath.spec_bytes().len() == 0 {
            "./"@
        } else {
            filepath@
        },
{
    if !has_password {
        return Err(STATUS_UNAUTHORIZED);
    }
    let bytes = filepath.as_bytes();
    if bytes.len() == 0 {
        Ok((Kind::Dir, "./"))
    } else if bytes[bytes.len() - 1] == SLASH {
        Ok((Kind::Dir, filepath))
    } else {
        Ok((Kind::File, filepath))
    }
}

/// The location a client is sent to when it asked for a file and the path
/// names a directory: the same path with a `/` behind it.
pub fn redirect_location(filepath: &str) -> (location: String)
    ensures
        location@ == seq!['/'] + filepath@ + seq!['/'],
{
    proof {
        reveal_strlit("/");
    }
    let location = String::from_str("/").concat(filepath).concat("/");
    assert(location@ =~= seq!['/'] + filepath@ + seq!['/']);
    location
}

/// The answer to a request whose helper failed with `code` before it
/// produced any payload: a redirect to the listing where a file was asked
/// for and a directory found, else the status of the code.
pub fn answer(code: ReturnCode, filepath: &str) -> (answer: Answer)
    ensures
        match answer {
            Answer::Redirect { status, location } => code == ReturnCode::UnexpectedType && status
                == 302 && location@ == seq!['/'] + filepath@ + seq!['/'],
            Answer::Status(status) => code != ReturnCode::UnexpectedType && status
                == code.spec_http_status(),
        },
{
    match code {
        ReturnCode::UnexpectedType => Answer::Redirect {
            status: STATUS_FOUND,
            location: redirect_location(filepath),
        },
        _ => Answer::Status(code.http_status()),
    }
}

} // verus!

//! The error a request ends with on the supervisor's side.

use vstd::prelude::*;
use crate::code::ReturnCode;

verus! {

/// A failed request: the return code that explains it.
#[derive(Debug, Clone, Copy, PartialEq, Eq, Structural)]
pub struct SimuError {
    pub code: ReturnCode,
}

impl SimuError {
    /// The error that reports `code`.
    pub fn new(code: ReturnCode) -> (err: SimuError)
        ensures
            err.code == code,
    {
        SimuError { code }
    }

    /// The error of a failure that has no code of its own.
    pub fn unknown() -> (err: SimuError)
        ensures
            err.code == ReturnCode::Unknown,
    {
        SimuError { code: ReturnCode::Unknown }
    }

    /// The text this error is shown as. It does not depend on the code.
    pub fn message(&self) -> (text: String)
        ensures
            text@ == "SimuError()"@,
    {
        "SimuError()".to_owned()
    }
}

} // verus!

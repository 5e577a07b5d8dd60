//! File serving through a privilege-dropping helper process.
//!
//! A supervisor frames a request `(username, password, path, kind)`, hands it
//! to a set-user-ID helper, and maps what the helper reports back to an
//! answer for the client. This crate holds the rules both processes share:
//! the wire formats, the return codes and the decisions each side takes
//! between two pieces of I/O.

pub mod bind;
pub mod code;
pub mod error;
pub mod frame;
pub mod listing;
pub mod pump;
pub mod route;
pub mod session;

pub use code::ReturnCode;
pub use error::SimuError;
pub use listing::{Directory, DirectoryEntry};

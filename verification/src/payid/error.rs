//! Errors of Pay ID parsing and resolution.

use vstd::prelude::*;

verus! {

/// Why a Pay ID operation failed.
#[derive(Debug, Clone)]
pub enum PayIdError {
    NotFound(String),
    InvalidFormat(String),
    AlreadyTaken(String),
    Unauthorized(String),
    UnsupportedHandle(String),
    DisplayNameRequired,
    DisplayNameInvalid(String),
    Rpc(String),
    Contract(String),
}

impl PayIdError {
    /// The kind of the error and its message (empty for a message-less
    /// kind), as characters.
    pub open spec fn view_msg(&self) -> Seq<char> {
        match self {
            PayIdError::NotFound(s) => s@,
            PayIdError::InvalidFormat(s) => s@,
            PayIdError::AlreadyTaken(s) => s@,
            PayIdError::Unauthorized(s) => s@,
            PayIdError::UnsupportedHandle(s) => s@,
            PayIdError::DisplayNameRequired => Seq::empty(),
            PayIdError::DisplayNameInvalid(s) => s@,
            PayIdError::Rpc(s) => s@,
            PayIdError::Contract(s) => s@,
        }
    }
}

} // verus!

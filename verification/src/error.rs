//! The ways in which a call on the ledger fails. A call that fails changes
//! nothing.

use vstd::prelude::*;

verus! {

/// Why a call was refused.
#[derive(Clone, Copy, Debug, PartialEq, Eq, Structural)]
pub enum Error {
    /// The requested debit exceeds the rewards and principal available, or
    /// the attached value is below the price.
    InsufficientFunds,
    /// The caller lacks the role or identity that the call needs.
    Unauthorized,
    /// No account, invoice or period is known under the reference given.
    NotFound,
    /// The invoice is no longer pending.
    InvalidState,
    /// A rate or fee above its ceiling, or a zero amount where a positive
    /// one is needed.
    InvalidParameter,
}

impl Error {
    /// A short description of the error.
    pub fn message(&self) -> (s: &'static str)
        ensures
            s@ == match *self {
                Error::InsufficientFunds => "insufficient funds"@,
                Error::Unauthorized => "unauthorized"@,
                Error::NotFound => "not found"@,
                Error::InvalidState => "invalid state"@,
                Error::InvalidParameter => "invalid parameter"@,
            },
    {
        match self {
            Error::InsufficientFunds => "insufficient funds",
            Error::Unauthorized => "unauthorized",
            Error::NotFound => "not found",
            Error::InvalidState => "invalid state",
            Error::InvalidParameter => "invalid parameter",
        }
    }
}

} // verus!

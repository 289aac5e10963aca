use vstd::prelude::*;

verus! {

/// Why a transaction record was refused.
#[derive(Debug, PartialEq, Eq, Structural)]
pub enum Error {
    /// A piece of the line has no `=`, or a required field is missing.
    InvalidTransactionFormat,
}

} // verus!

//! Errors of a request.
use vstd::prelude::*;

verus! {

/// A failure reported by the storage collaborator.
pub struct StorageError {
    pub message: String,
}

/// A selection input that the deployment does not accept.
#[derive(PartialEq, Eq, Structural, Clone, Copy, Debug)]
pub enum InputError {
    /// EVM-log or Ethereum-transaction selections while EVM support is off.
    EvmNotSupported,
    /// Contract-event selections while contracts support is off.
    ContractsNotSupported,
}

impl InputError {
    /// A human-readable description of the error.
    pub fn message(&self) -> (r: String)
        ensures
            r@ == match self {
                InputError::EvmNotSupported => "EVM selections are not supported"@,
                InputError::ContractsNotSupported => "contracts event selections are not supported"@,
            },
    {
        match self {
            InputError::EvmNotSupported => String::from_str("EVM selections are not supported"),
            InputError::ContractsNotSupported => String::from_str(
                "contracts event selections are not supported",
            ),
        }
    }
}

} // verus!

use vstd::prelude::*;

verus! {

/// Why an operation of the registry was refused.
#[derive(Clone, Copy, Debug, PartialEq, Eq, Structural)]
pub enum ContractError {
    /// An IPFS hash or a Merkle root was empty.
    InvalidInput,
    /// The listing counter cannot be advanced any further.
    CounterOverflow,
    /// No listing has the given id.
    ListingNotFound,
    /// The listing is part of a swap that has not completed yet.
    PendingSwapExists,
}

impl ContractError {
    /// The number under which the error is published to callers.
    pub open spec fn spec_code(self) -> u32 {
        match self {
            ContractError::InvalidInput => 1,
            ContractError::CounterOverflow => 2,
            ContractError::ListingNotFound => 3,
            ContractError::PendingSwapExists => 4,
        }
    }

    /// The number under which the error is published to callers.
    pub fn code(&self) -> (c: u32)
        ensures
            c == self.spec_code(),
    {
        match self {
            ContractError::InvalidInput => 1,
            ContractError::CounterOverflow => 2,
            ContractError::ListingNotFound => 3,
            ContractError::PendingSwapExists => 4,
        }
    }
}

} // verus!

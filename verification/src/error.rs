//! The ways a call can fail.

use vstd::prelude::*;

verus! {

/// Why a call was refused. A refused call leaves the tank as it was.
#[derive(Debug, Clone, Copy, PartialEq, Eq, Structural)]
pub enum ContractError {
    /// The sender already has as many living fish as one owner may hold.
    CapacityExceeded,
    /// No fish has the given id.
    NotFound,
    /// The fish belongs to somebody else.
    NotOwner,
    /// The fish died earlier; nothing can be done for it.
    AlreadyDead,
    /// The call carried no randomness, or too few bytes of it. Adoption
    /// recovers from this by itself and never reports it.
    RandomnessUnavailable,
}

impl ContractError {
    /// The text of [`ContractError::message`].
    pub open spec fn message_text(self) -> Seq<char> {
        match self {
            ContractError::CapacityExceeded => "You have too many alive fish to adopt more!"@,
            ContractError::NotFound => "This fish doesn't exist!"@,
            ContractError::NotOwner => "This is not your fish!"@,
            ContractError::AlreadyDead => "Your fish is dead"@,
            ContractError::RandomnessUnavailable => "No usable randomness available"@,
        }
    }

    /// What to tell the sender.
    pub fn message(&self) -> (text: String)
        ensures
            text@ == self.message_text(),
    {
        match self {
            ContractError::CapacityExceeded => "You have too many alive fish to adopt more!".to_owned(),
            ContractError::NotFound => "This fish doesn't exist!".to_owned(),
            ContractError::NotOwner => "This is not your fish!".to_owned(),
            ContractError::AlreadyDead => "Your fish is dead".to_owned(),
            ContractError::RandomnessUnavailable => "No usable randomness available".to_owned(),
        }
    }
}

} // verus!

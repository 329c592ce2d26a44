//! The failures a request can end in.

use vstd::prelude::*;

verus! {

/// Why a request was refused. A refused request changes nothing.
#[derive(Debug, Clone, Copy, PartialEq, Eq, Structural)]
pub enum ContractError {
    /// The caller is not the administrator.
    Unauthorized {},
    /// The attached payment is not exactly one coin of the entry price.
    InvalidFunds {},
    /// Ticket sales are suspended.
    Paused {},
    /// The round's time window has not elapsed yet.
    RoundNotEnded {},
    /// The round has no ticket to draw from.
    NoParticipants {},
    /// The address holds no ticket in the current round.
    ParticipantNotFound {},
    /// The host rejected the account identifier.
    InvalidAddress {},
    /// No round with that id has been closed.
    RoundNotFound {},
    /// The draw cannot reach three distinct ticket slots.
    InsufficientParticipants {},
}

impl ContractError {
    /// The text shown to a caller for this failure.
    pub open spec fn spec_message(self) -> Seq<char> {
        match self {
            ContractError::Unauthorized {} => "Unauthorized"@,
            ContractError::InvalidFunds {} => "Invalid funds"@,
            ContractError::Paused {} => "Contract is paused"@,
            ContractError::RoundNotEnded {} => "Round not ended yet"@,
            ContractError::NoParticipants {} => "No participants in this round"@,
            ContractError::ParticipantNotFound {} => "cant find this id "@,
            ContractError::InvalidAddress {} => "Invalid address"@,
            ContractError::RoundNotFound {} => "Round not found"@,
            ContractError::InsufficientParticipants {} => "Not enough distinct tickets to draw from"@,
        }
    }

    /// The text shown to a caller for this failure.
    pub fn message(&self) -> (text: &'static str)
        ensures
            text@ == self.spec_message(),
    {
        match self {
            ContractError::Unauthorized {} => "Unauthorized",
            ContractError::InvalidFunds {} => "Invalid funds",
            ContractError::Paused {} => "Contract is paused",
            ContractError::RoundNotEnded {} => "Round not ended yet",
            ContractError::NoParticipants {} => "No participants in this round",
            ContractError::ParticipantNotFound {} => "cant find this id ",
            ContractError::InvalidAddress {} => "Invalid address",
            ContractError::RoundNotFound {} => "Round not found",
            ContractError::InsufficientParticipants {} => "Not enough distinct tickets to draw from",
        }
    }
}

} // verus!

//! The failure reasons that the engine surfaces to its callers.
//!
//! Every fallible operation aborts as a whole: an error means that no part
//! of the operation's state mutation was applied.

use vstd::prelude::*;

verus! {

/// Discriminated failure reason of an engine operation.
///
/// State errors (`ContractPaused`, `GameEnded`, `GameOngoing`) reject an
/// operation disallowed by the current lifecycle or pause state; validation
/// errors (`PaymentIdentifier`, `PaymentNonce`, `PaymentAmount`, `KeyNeeded`,
/// `JumpOverTrap`, `GoThroughWall`) reject malformed payments and blocked
/// paths; authorization errors (`NotMvp`, `Unauthorized`) reject callers
/// without the right to the operation; `MvpClaimed` guards the single-claim
/// payout.
#[derive(Clone, Copy, Debug, PartialEq, Eq, Structural)]
pub enum GameError {
    ContractPaused,
    GameEnded,
    GameOngoing,
    PaymentIdentifier,
    PaymentNonce,
    PaymentAmount,
    KeyNeeded,
    JumpOverTrap,
    GoThroughWall,
    MvpClaimed,
    NotMvp,
    Unauthorized,
}

impl GameError {
    /// The reason as text, as surfaced to a caller.
    pub fn message(&self) -> (s: &'static str)
        ensures
            *self is ContractPaused ==> s@ == "Contract is paused!"@,
            *self is GameEnded ==> s@ == "Game has ended!"@,
            *self is GameOngoing ==> s@ == "Game hasn't ended, action unauthorized!"@,
            *self is PaymentIdentifier ==> s@ == "Invalid payment token!"@,
            *self is PaymentNonce ==> s@ == "Invalid payment nonce!"@,
            *self is PaymentAmount ==> s@ == "Amount paid is not a multiple of the set move price!"@,
            *self is KeyNeeded ==> s@ == "You need a key to go through this door!"@,
            *self is JumpOverTrap ==> s@ == "You can't jump over a trap"@,
            *self is GoThroughWall ==> s@ == "Can't go through a wall."@,
            *self is MvpClaimed ==> s@ == "MVP reward already claimed!"@,
            *self is NotMvp ==> s@ == "You are not the mvp!"@,
            *self is Unauthorized ==> s@ == "Unauthorized call."@,
    {
        match self {
            GameError::ContractPaused => "Contract is paused!",
            GameError::GameEnded => "Game has ended!",
            GameError::GameOngoing => "Game hasn't ended, action unauthorized!",
            GameError::PaymentIdentifier => "Invalid payment token!",
            GameError::PaymentNonce => "Invalid payment nonce!",
            GameError::PaymentAmount => "Amount paid is not a multiple of the set move price!",
            GameError::KeyNeeded => "You need a key to go through this door!",
            GameError::JumpOverTrap => "You can't jump over a trap",
            GameError::GoThroughWall => "Can't go through a wall.",
            GameError::MvpClaimed => "MVP reward already claimed!",
            GameError::NotMvp => "You are not the mvp!",
            GameError::Unauthorized => "Unauthorized call.",
        }
    }
}

} // verus!

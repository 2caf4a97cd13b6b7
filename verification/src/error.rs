use vstd::prelude::*;

verus! {

/// The error conditions of the game engine.
#[derive(Clone, Copy, PartialEq, Eq, Structural, Debug)]
pub enum BlackjackGameError {
    /// Zero decks or zero shuffle passes were requested; fatal at
    /// construction time.
    InvalidConfig,
    /// A bet of zero was placed; recoverable, re-prompt.
    InvalidBet,
    /// A bet exceeding the player's balance was placed; recoverable.
    InsufficientFunds,
    /// A bet was placed that the table bank could not pay a natural
    /// blackjack on; recoverable.
    InsufficientBankroll,
    /// An action was requested that is not currently legal; recoverable.
    InvalidAction,
    /// The shoe ran out of cards mid-deal; unreachable while the reshuffle
    /// policy is honoured, and fatal otherwise.
    Exhausted,
}

} // verus!

use vstd::prelude::*;

verus! {

/// Rendering hook for a front end that shows a player's hands, their
/// values and their bets. The library computes; implementors of these
/// traits present.
pub trait DisplayablePlayersBlackjackHand {
    /// Renders the player's hands, one entry per split hand.
    fn display_hand(&self);
}

/// Rendering hook for a front end that shows a player at the table.
pub trait DisplayablePlayer {
    /// Renders the player's hands.
    fn display_hand(&self);

    /// Renders the player's remaining balance.
    fn display_balance(&self);
}

/// Rendering hook for a front end that shows the dealer's hand, with or
/// without the hole card revealed.
pub trait DisplayableDealersBlackjackHand {
    /// Renders the value of the dealer's hand.
    fn display_hand_value(&self);

    /// Renders the dealer's hand with the hole card hidden, as at the
    /// start of a round.
    fn display_hand_without_hole(&self);

    /// Renders the dealer's full hand.
    fn display_hand(&self);
}

} // verus!

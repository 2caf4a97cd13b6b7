//! Core rules engine for a single-player game of blackjack: card and shoe
//! modelling, hand valuation under the soft-ace rule, the player's split-hand
//! state machine, the dealer's draw-to-17 policy, and bet settlement.
//!
//! All monetary amounts are integers in the table's minor currency unit
//! (e.g. cents), so that the 3:2 natural-blackjack payout is exact for
//! even amounts and rounds down otherwise.

pub mod card;
pub mod dealers_hand;
pub mod deck;
pub mod display;
pub mod error;
pub mod hand;
pub mod player;
pub mod players_hand;
pub mod table;

pub use card::{Card, Rank, Suit};
pub use display::{DisplayableDealersBlackjackHand, DisplayablePlayer, DisplayablePlayersBlackjackHand};
pub use dealers_hand::DealersBlackjackHand;
pub use deck::Deck;
pub use error::BlackjackGameError;
pub use hand::compute_optimal_hand;
pub use player::{Player, PlayerAction};
pub use players_hand::PlayersBlackjackHand;
pub use table::{ActionOutcome, BlackjackTable, DealOutcome, HandOutcome, RoundSummary, MAX_TOTAL_MONEY};

use blackjack::{
    ActionOutcome, BlackjackGameError, BlackjackTable, Card, DealOutcome, Deck, HandOutcome,
    Player, PlayerAction, Rank, Suit,
};

fn card(suit: Suit, rank: Rank) -> Card {
    Card::new(suit, rank)
}

/// A 52-card shoe that deals the given cards first and harmless twos
/// afterwards.
fn rigged_deck(first: &[Card]) -> Deck {
    let mut cards = first.to_vec();
    while cards.len() < 52 {
        cards.push(card(Suit::Clubs, Rank::Two));
    }
    Deck::from_cards(cards).unwrap()
}

fn table_with(bank: u64, first: &[Card]) -> BlackjackTable {
    BlackjackTable::from_deck(bank, rigged_deck(first), 1).unwrap()
}

#[test]
fn table_new_rejects_bad_config() {
    assert_eq!(
        BlackjackTable::new(1_000, 0, 1).unwrap_err(),
        BlackjackGameError::InvalidConfig
    );
    assert_eq!(
        BlackjackTable::new(1_000, 1, 0).unwrap_err(),
        BlackjackGameError::InvalidConfig
    );
    assert!(BlackjackTable::new(1_000, 6, 7).is_ok());
}

#[test]
fn bet_validation_order() {
    let table = table_with(30, &[]);
    let mut player = Player::new(String::from("P"), 500);
    assert_eq!(
        table.place_bet(&mut player, 0).unwrap_err(),
        BlackjackGameError::InvalidBet
    );
    // 3 * 25 = 75 exceeds 2 * 30: the bank cannot cover a natural.
    assert_eq!(
        table.place_bet(&mut player, 25).unwrap_err(),
        BlackjackGameError::InsufficientBankroll
    );
    let rich_table = table_with(1_000_000, &[]);
    assert_eq!(
        rich_table.place_bet(&mut player, 600).unwrap_err(),
        BlackjackGameError::InsufficientFunds
    );
    assert_eq!(player.balance, 500);
    assert!(rich_table.place_bet(&mut player, 25).is_ok());
    assert_eq!(player.balance, 475);
}

#[test]
fn bet_is_sunk_by_reset() {
    // Placing a bet deducts immediately; a bare reset does not refund
    // it — only settlement restores funds.
    let mut player = Player::new(String::from("P"), 500);
    player.place_bet(25).unwrap();
    assert_eq!(player.balance, 475);
    player.reset();
    assert_eq!(player.balance, 475);
    assert!(player.bets().is_empty());
}

#[test]
fn dealer_natural_takes_the_bet() {
    // Player 9-5, dealer ace-king: an immediate loss of the single bet.
    let mut table = table_with(
        1_000_000,
        &[
            card(Suit::Clubs, Rank::Nine),
            card(Suit::Diamonds, Rank::Ace),
            card(Suit::Hearts, Rank::Five),
            card(Suit::Diamonds, Rank::King),
        ],
    );
    let mut player = Player::new(String::from("P"), 500);
    table.place_bet(&mut player, 25).unwrap();
    assert_eq!(player.balance, 475);
    let outcome = table.deal_hand(&mut player).unwrap();
    assert_eq!(outcome, DealOutcome::DealerBlackjack { push: false });
    assert_eq!(player.bj_hand.hand[0].len(), 2);
    assert_eq!(table.dealers_hand.hand.len(), 2);
    assert_eq!(player.balance, 475);
    assert_eq!(table.balance, 1_000_025);
    assert!(player.turn_is_over());
    // No live bet remains: settlement skips scoring and resets.
    assert!(table.finish_hand(&mut player).unwrap().is_none());
    assert_eq!(player.balance, 475);
}

#[test]
fn both_naturals_push() {
    let mut table = table_with(
        1_000_000,
        &[
            card(Suit::Spades, Rank::Ace),
            card(Suit::Diamonds, Rank::Ace),
            card(Suit::Hearts, Rank::King),
            card(Suit::Diamonds, Rank::Queen),
        ],
    );
    let mut player = Player::new(String::from("P"), 500);
    table.place_bet(&mut player, 25).unwrap();
    let outcome = table.deal_hand(&mut player).unwrap();
    assert_eq!(outcome, DealOutcome::DealerBlackjack { push: true });
    assert_eq!(player.balance, 500);
    assert_eq!(table.balance, 1_000_000);
}

#[test]
fn player_natural_pays_three_to_two() {
    // In minor units: a 500.00 balance, a 25.00 bet, a natural paying
    // 37.50 on top of the returned bet.
    let mut table = table_with(
        100_000_000,
        &[
            card(Suit::Spades, Rank::Ace),
            card(Suit::Clubs, Rank::Nine),
            card(Suit::Hearts, Rank::King),
            card(Suit::Hearts, Rank::Five),
        ],
    );
    let mut player = Player::new(String::from("P"), 50_000);
    table.place_bet(&mut player, 2_500).unwrap();
    assert_eq!(player.balance, 47_500);
    let outcome = table.deal_hand(&mut player).unwrap();
    assert_eq!(outcome, DealOutcome::PlayerBlackjack { winnings: 3_750 });
    assert_eq!(player.balance, 53_750);
    assert_eq!(table.balance, 100_000_000 - 3_750);
}

#[test]
fn odd_natural_payout_rounds_down() {
    let mut table = table_with(
        1_000_000,
        &[
            card(Suit::Spades, Rank::Ace),
            card(Suit::Clubs, Rank::Nine),
            card(Suit::Hearts, Rank::King),
            card(Suit::Hearts, Rank::Five),
        ],
    );
    let mut player = Player::new(String::from("P"), 500);
    table.place_bet(&mut player, 25).unwrap();
    let outcome = table.deal_hand(&mut player).unwrap();
    assert_eq!(outcome, DealOutcome::PlayerBlackjack { winnings: 37 });
    assert_eq!(player.balance, 475 + 25 + 37);
}

#[test]
fn stand_on_twenty_beats_dealer_seventeen() {
    // The dealer draws to exactly 17; the player's 20 wins: the bet
    // comes back plus an equal amount from the bank.
    let mut table = table_with(
        1_000_000,
        &[
            card(Suit::Clubs, Rank::King),
            card(Suit::Hearts, Rank::Ten),
            card(Suit::Diamonds, Rank::Queen),
            card(Suit::Spades, Rank::Two),
            card(Suit::Clubs, Rank::Five),
        ],
    );
    let mut player = Player::new(String::from("P"), 500);
    table.place_bet(&mut player, 25).unwrap();
    assert_eq!(table.deal_hand(&mut player).unwrap(), DealOutcome::InPlay);
    let options = player.get_playing_options();
    assert_eq!(options, vec![PlayerAction::Stand, PlayerAction::Hit]);
    assert_eq!(
        table.play_option(&mut player, PlayerAction::Stand).unwrap(),
        ActionOutcome::Stood
    );
    assert!(player.turn_is_over());
    let summary = table.finish_hand(&mut player).unwrap().unwrap();
    assert_eq!(summary.dealer_total, 17);
    assert_eq!(summary.outcomes, vec![HandOutcome::Won]);
    assert_eq!(summary.winnings, 25);
    assert_eq!(summary.refunded, 0);
    assert_eq!(player.balance, 525);
    assert_eq!(table.balance, 999_975);
}

#[test]
fn push_refunds_the_bet() {
    // Player 10-7 stands on 17 against the dealer's 17.
    let mut table = table_with(
        1_000_000,
        &[
            card(Suit::Clubs, Rank::Ten),
            card(Suit::Hearts, Rank::Ten),
            card(Suit::Diamonds, Rank::Seven),
            card(Suit::Spades, Rank::Seven),
        ],
    );
    let mut player = Player::new(String::from("P"), 500);
    table.place_bet(&mut player, 25).unwrap();
    assert_eq!(table.deal_hand(&mut player).unwrap(), DealOutcome::InPlay);
    table.play_option(&mut player, PlayerAction::Stand).unwrap();
    let summary = table.finish_hand(&mut player).unwrap().unwrap();
    assert_eq!(summary.outcomes, vec![HandOutcome::Pushed]);
    assert_eq!(summary.winnings, 0);
    assert_eq!(summary.refunded, 25);
    assert_eq!(player.balance, 500);
    assert_eq!(table.balance, 1_000_000);
}

#[test]
fn busting_on_a_hit_forfeits_at_once() {
    let mut table = table_with(
        1_000_000,
        &[
            card(Suit::Clubs, Rank::Ten),
            card(Suit::Hearts, Rank::Ten),
            card(Suit::Diamonds, Rank::Five),
            card(Suit::Spades, Rank::Seven),
            card(Suit::Spades, Rank::Ten),
        ],
    );
    let mut player = Player::new(String::from("P"), 500);
    table.place_bet(&mut player, 25).unwrap();
    assert_eq!(table.deal_hand(&mut player).unwrap(), DealOutcome::InPlay);
    assert_eq!(
        table.play_option(&mut player, PlayerAction::Hit).unwrap(),
        ActionOutcome::Hit { busted: true }
    );
    assert_eq!(player.balance, 475);
    assert_eq!(table.balance, 1_000_025);
    assert!(player.turn_is_over());
    // The only bet is forfeited: settlement skips scoring.
    assert!(table.finish_hand(&mut player).unwrap().is_none());
    assert_eq!(player.balance, 475);
    assert_eq!(table.balance, 1_000_025);
}

#[test]
fn hit_to_seventeen_then_push() {
    let mut table = table_with(
        1_000_000,
        &[
            card(Suit::Clubs, Rank::Ten),
            card(Suit::Hearts, Rank::Ten),
            card(Suit::Diamonds, Rank::Five),
            card(Suit::Spades, Rank::Seven),
            card(Suit::Spades, Rank::Two),
        ],
    );
    let mut player = Player::new(String::from("P"), 500);
    table.place_bet(&mut player, 25).unwrap();
    table.deal_hand(&mut player).unwrap();
    assert_eq!(
        table.play_option(&mut player, PlayerAction::Hit).unwrap(),
        ActionOutcome::Hit { busted: false }
    );
    table.play_option(&mut player, PlayerAction::Stand).unwrap();
    let summary = table.finish_hand(&mut player).unwrap().unwrap();
    assert_eq!(summary.outcomes, vec![HandOutcome::Pushed]);
    assert_eq!(player.balance, 500);
}

#[test]
fn double_down_wins_double() {
    // Player 5-6 doubles to 50, draws a ten for 21, and beats the
    // dealer's 17.
    let mut table = table_with(
        1_000_000,
        &[
            card(Suit::Clubs, Rank::Five),
            card(Suit::Hearts, Rank::Ten),
            card(Suit::Diamonds, Rank::Six),
            card(Suit::Spades, Rank::Seven),
            card(Suit::Spades, Rank::Ten),
        ],
    );
    let mut player = Player::new(String::from("P"), 500);
    table.place_bet(&mut player, 25).unwrap();
    table.deal_hand(&mut player).unwrap();
    let options = player.get_playing_options();
    assert_eq!(
        options,
        vec![PlayerAction::Stand, PlayerAction::Hit, PlayerAction::DoubleDown]
    );
    assert_eq!(
        table.play_option(&mut player, PlayerAction::DoubleDown).unwrap(),
        ActionOutcome::Doubled { busted: false }
    );
    assert_eq!(player.balance, 450);
    assert_eq!(player.bets(), &vec![50]);
    assert!(player.turn_is_over());
    let summary = table.finish_hand(&mut player).unwrap().unwrap();
    assert_eq!(summary.dealer_total, 17);
    assert_eq!(summary.outcomes, vec![HandOutcome::Won]);
    assert_eq!(summary.winnings, 50);
    assert_eq!(player.balance, 550);
    assert_eq!(table.balance, 999_950);
}

#[test]
fn split_plays_two_hands() {
    // A pair of eights splits; both hands then lose to the dealer's 17.
    let mut table = table_with(
        1_000_000,
        &[
            card(Suit::Clubs, Rank::Eight),
            card(Suit::Hearts, Rank::Ten),
            card(Suit::Diamonds, Rank::Eight),
            card(Suit::Spades, Rank::Seven),
            card(Suit::Clubs, Rank::Two),
            card(Suit::Clubs, Rank::Three),
        ],
    );
    let mut player = Player::new(String::from("P"), 500);
    table.place_bet(&mut player, 25).unwrap();
    table.deal_hand(&mut player).unwrap();
    let options = player.get_playing_options();
    assert_eq!(
        options,
        vec![PlayerAction::Stand, PlayerAction::Hit, PlayerAction::Split]
    );
    assert_eq!(
        table.play_option(&mut player, PlayerAction::Split).unwrap(),
        ActionOutcome::SplitHand
    );
    assert_eq!(player.balance, 450);
    assert_eq!(player.bets(), &vec![25, 25]);
    assert_eq!(player.bj_hand.hand.len(), 2);
    assert_eq!(player.bj_hand.hand[0].len(), 2);
    assert_eq!(player.bj_hand.hand[1].len(), 2);
    // Hand one: 8 + 2 = 10; hand two: 8 + 3 = 11.
    let optimal = player.get_optimal_hands().unwrap();
    assert_eq!(optimal, vec![(0, 10), (1, 11)]);
    table.play_option(&mut player, PlayerAction::Stand).unwrap();
    table.play_option(&mut player, PlayerAction::Stand).unwrap();
    assert!(player.turn_is_over());
    let summary = table.finish_hand(&mut player).unwrap().unwrap();
    assert_eq!(summary.outcomes, vec![HandOutcome::Lost, HandOutcome::Lost]);
    assert_eq!(player.balance, 450);
    assert_eq!(table.balance, 1_000_050);
}

#[test]
fn illegal_actions_are_rejected() {
    let mut table = table_with(
        1_000_000,
        &[
            card(Suit::Clubs, Rank::Nine),
            card(Suit::Hearts, Rank::Ten),
            card(Suit::Diamonds, Rank::Five),
            card(Suit::Spades, Rank::Seven),
        ],
    );
    let mut player = Player::new(String::from("P"), 500);
    table.place_bet(&mut player, 25).unwrap();
    table.deal_hand(&mut player).unwrap();
    // 9-5 is no pair and totals 14: neither split nor double down.
    assert_eq!(
        table.play_option(&mut player, PlayerAction::Split).unwrap_err(),
        BlackjackGameError::InvalidAction
    );
    assert_eq!(
        table.play_option(&mut player, PlayerAction::DoubleDown).unwrap_err(),
        BlackjackGameError::InvalidAction
    );
    assert_eq!(player.balance, 475);
}

#[test]
fn soft_hand_can_double_down() {
    // Ace-eight reads 9/19: the 9 qualifies for doubling down.
    let mut table = table_with(
        1_000_000,
        &[
            card(Suit::Clubs, Rank::Ace),
            card(Suit::Hearts, Rank::Ten),
            card(Suit::Diamonds, Rank::Eight),
            card(Suit::Spades, Rank::Seven),
        ],
    );
    let mut player = Player::new(String::from("P"), 500);
    table.place_bet(&mut player, 25).unwrap();
    table.deal_hand(&mut player).unwrap();
    let options = player.get_playing_options();
    assert!(options.contains(&PlayerAction::DoubleDown));
}

#[test]
fn dealer_rescues_soft_hand_below_seventeen() {
    // Dealer ace-four reads 5/15 and draws; a ten makes 15/25, still a
    // forced draw; a three settles it at 18.
    let mut table = table_with(
        1_000_000,
        &[
            card(Suit::Clubs, Rank::Ten),
            card(Suit::Hearts, Rank::Ace),
            card(Suit::Diamonds, Rank::Nine),
            card(Suit::Spades, Rank::Four),
            card(Suit::Spades, Rank::Ten),
            card(Suit::Diamonds, Rank::Three),
        ],
    );
    let mut player = Player::new(String::from("P"), 500);
    table.place_bet(&mut player, 25).unwrap();
    table.deal_hand(&mut player).unwrap();
    table.play_option(&mut player, PlayerAction::Stand).unwrap();
    let summary = table.finish_hand(&mut player).unwrap().unwrap();
    assert_eq!(summary.dealer_total, 18);
    // The player's 19 beats the dealer's 18.
    assert_eq!(summary.outcomes, vec![HandOutcome::Won]);
    assert_eq!(player.balance, 525);
}

#[test]
fn dealing_reshuffles_a_flagged_shoe() {
    // A fresh table's shoe starts flagged: the first deal shuffles, then
    // deals two cards each from the top.
    let mut table = BlackjackTable::new(1_000_000, 6, 7).unwrap();
    let mut player = Player::new(String::from("P"), 500);
    table.place_bet(&mut player, 25).unwrap();
    table.deal_hand(&mut player).unwrap();
    assert_eq!(player.bj_hand.hand[0].len(), 2);
    assert_eq!(table.dealers_hand.hand.len(), 2);
    assert!(!table.deck.shuffle_flag);
    assert_eq!(table.deck.deck_pos, 4);
}

#[test]
fn splits_are_capped_at_four_hands() {
    // Three splits reach the house cap of four hands; a pair in a
    // four-hand group is no longer offered a split.
    let mut table = table_with(
        1_000_000,
        &[
            card(Suit::Clubs, Rank::Eight),
            card(Suit::Hearts, Rank::Ten),
            card(Suit::Diamonds, Rank::Eight),
            card(Suit::Spades, Rank::Seven),
            card(Suit::Hearts, Rank::Eight),
            card(Suit::Spades, Rank::Eight),
            card(Suit::Clubs, Rank::Two),
            card(Suit::Diamonds, Rank::Two),
            card(Suit::Hearts, Rank::Eight),
            card(Suit::Clubs, Rank::Eight),
        ],
    );
    let mut player = Player::new(String::from("P"), 500);
    table.place_bet(&mut player, 25).unwrap();
    table.deal_hand(&mut player).unwrap();
    table.play_option(&mut player, PlayerAction::Split).unwrap();
    table.play_option(&mut player, PlayerAction::Split).unwrap();
    assert_eq!(player.bj_hand.hand.len(), 3);
    table.play_option(&mut player, PlayerAction::Stand).unwrap();
    table.play_option(&mut player, PlayerAction::Stand).unwrap();
    // The active hand is a pair of eights again, but the fourth hand
    // uses up the cap.
    table.play_option(&mut player, PlayerAction::Split).unwrap();
    assert_eq!(player.bj_hand.hand.len(), 4);
    assert_eq!(player.balance, 400);
    let options = player.get_playing_options();
    assert_eq!(options, vec![PlayerAction::Stand, PlayerAction::Hit]);
    assert_eq!(
        table.play_option(&mut player, PlayerAction::Split).unwrap_err(),
        BlackjackGameError::InvalidAction
    );
    table.play_option(&mut player, PlayerAction::Stand).unwrap();
    table.play_option(&mut player, PlayerAction::Stand).unwrap();
    assert!(player.turn_is_over());
    let summary = table.finish_hand(&mut player).unwrap().unwrap();
    assert_eq!(summary.dealer_total, 17);
    assert_eq!(summary.outcomes.len(), 4);
    assert!(summary.outcomes.iter().all(|o| *o == HandOutcome::Lost));
    assert_eq!(player.balance, 400);
    assert_eq!(table.balance, 1_000_100);
}

#[test]
fn no_live_bets_means_no_optimal_hands() {
    let player = Player::new(String::from("P"), 500);
    assert!(player.get_optimal_hands().is_none());
}

use blackjack::{Card, Deck, BlackjackGameError, PlayersBlackjackHand, Rank, Suit};

fn card(suit: Suit, rank: Rank) -> Card {
    Card::new(suit, rank)
}

fn hand_with(cards: &[Card]) -> PlayersBlackjackHand {
    let mut h = PlayersBlackjackHand::new();
    for c in cards {
        h.receive_card(*c, 0);
    }
    h.compute_hand_value(0);
    h
}

fn standard_deck() -> Vec<Card> {
    let suits = [Suit::Clubs, Suit::Diamonds, Suit::Hearts, Suit::Spades];
    let ranks = [
        Rank::Ace,
        Rank::Two,
        Rank::Three,
        Rank::Four,
        Rank::Five,
        Rank::Six,
        Rank::Seven,
        Rank::Eight,
        Rank::Nine,
        Rank::Ten,
        Rank::Jack,
        Rank::Queen,
        Rank::King,
    ];
    let mut cards = Vec::new();
    for s in suits {
        for r in ranks {
            cards.push(Card::new(s, r));
        }
    }
    cards
}

#[test]
fn card_base_values() {
    assert_eq!(Card::get_card_value(Rank::Ace), 1);
    assert_eq!(Card::get_card_value(Rank::Two), 2);
    assert_eq!(Card::get_card_value(Rank::Nine), 9);
    assert_eq!(Card::get_card_value(Rank::Ten), 10);
    assert_eq!(Card::get_card_value(Rank::Jack), 10);
    assert_eq!(Card::get_card_value(Rank::Queen), 10);
    assert_eq!(Card::get_card_value(Rank::King), 10);
    let c = card(Suit::Spades, Rank::Ace);
    assert_eq!(c.val, 1);
}

#[test]
fn facedown_token() {
    assert_eq!(Card::display_facedown(), "|*|");
}

#[test]
fn candidates_apply_alternate_once() {
    // [A, A, 9]: hard total 11, a single +10 alternate, not two.
    let h = hand_with(&[
        card(Suit::Spades, Rank::Ace),
        card(Suit::Hearts, Rank::Ace),
        card(Suit::Clubs, Rank::Nine),
    ]);
    assert_eq!(h.hand_values[0], vec![11, 21]);
}

#[test]
fn candidates_without_ace_are_single() {
    let h = hand_with(&[
        card(Suit::Spades, Rank::Ten),
        card(Suit::Hearts, Rank::Seven),
    ]);
    assert_eq!(h.hand_values[0], vec![17]);
}

#[test]
fn bust_iff_min_candidate_over_21() {
    // [10, 10, 5] -> {25}: busted.
    let h = hand_with(&[
        card(Suit::Clubs, Rank::Ten),
        card(Suit::Diamonds, Rank::Ten),
        card(Suit::Hearts, Rank::Five),
    ]);
    assert_eq!(h.hand_values[0], vec![25]);
    assert!(h.busted(0));

    // [A, 6, 9] -> {16, 26}: optimal 16, not busted.
    let h2 = hand_with(&[
        card(Suit::Spades, Rank::Ace),
        card(Suit::Hearts, Rank::Six),
        card(Suit::Clubs, Rank::Nine),
    ]);
    assert_eq!(h2.hand_values[0], vec![16, 26]);
    assert!(!h2.busted(0));
    assert_eq!(blackjack::compute_optimal_hand(&h2.hand_values[0]), 16);
}

#[test]
fn optimal_value_selection() {
    // A busted alternate: the non-busting reading is chosen.
    assert_eq!(blackjack::compute_optimal_hand(&vec![12, 22]), 12);
    assert_eq!(blackjack::compute_optimal_hand(&vec![22, 12]), 12);
    // Both legal: the higher reading is chosen.
    assert_eq!(blackjack::compute_optimal_hand(&vec![9, 19]), 19);
    assert_eq!(blackjack::compute_optimal_hand(&vec![19, 9]), 19);
    // A single candidate is returned directly.
    assert_eq!(blackjack::compute_optimal_hand(&vec![7]), 7);
    // Both busted: the smaller busted number is returned.
    assert_eq!(blackjack::compute_optimal_hand(&vec![25, 35]), 25);
}

#[test]
fn natural_blackjack_detection() {
    let h = hand_with(&[card(Suit::Spades, Rank::Ace), card(Suit::Hearts, Rank::King)]);
    assert!(h.is_blackjack(0));
    let h2 = hand_with(&[card(Suit::Spades, Rank::Ace), card(Suit::Hearts, Rank::Nine)]);
    assert!(!h2.is_blackjack(0));
    let h3 = hand_with(&[card(Suit::Clubs, Rank::Ten), card(Suit::Diamonds, Rank::Ten)]);
    assert!(!h3.is_blackjack(0));
    // Order-independent: ten-value card first.
    let h4 = hand_with(&[card(Suit::Hearts, Rank::Queen), card(Suit::Spades, Rank::Ace)]);
    assert!(h4.is_blackjack(0));
    // A split-derived hand is never a natural.
    let h5 = hand_with(&[card(Suit::Spades, Rank::Ace), card(Suit::Hearts, Rank::King)]);
    assert!(!h5.is_blackjack(1));
}

#[test]
fn split_needs_exact_rank_match() {
    let h = hand_with(&[card(Suit::Clubs, Rank::Eight), card(Suit::Diamonds, Rank::Eight)]);
    assert!(h.can_split(0));
    let h2 = hand_with(&[card(Suit::Clubs, Rank::Eight), card(Suit::Diamonds, Rank::Nine)]);
    assert!(!h2.can_split(0));
    // Equal base value is not enough: a ten and a jack do not split.
    let h3 = hand_with(&[card(Suit::Clubs, Rank::Ten), card(Suit::Diamonds, Rank::Jack)]);
    assert!(!h3.can_split(0));
}

#[test]
fn deck_new_rejects_zero_decks() {
    assert_eq!(Deck::new(0).unwrap_err(), BlackjackGameError::InvalidConfig);
    let d = Deck::new(6).unwrap();
    assert!(d.shuffle_flag);
}

#[test]
fn shuffle_rejects_zero_passes() {
    let mut d = Deck::new(1).unwrap();
    assert_eq!(d.shuffle(0).unwrap_err(), BlackjackGameError::InvalidConfig);
}

#[test]
fn from_cards_rejects_short_decks() {
    let cards = vec![card(Suit::Clubs, Rank::Two); 51];
    assert_eq!(
        Deck::from_cards(cards).unwrap_err(),
        BlackjackGameError::InvalidConfig
    );
}

#[test]
fn reshuffle_flag_set_at_eighty_percent() {
    // A single 52-card shoe flags at floor(0.8 * 51) = 40.
    let mut d = Deck::from_cards(standard_deck()).unwrap();
    assert!(!d.shuffle_flag);
    for _ in 0..39 {
        d.get_next_card().unwrap();
    }
    assert!(!d.shuffle_flag);
    d.get_next_card().unwrap();
    assert!(d.shuffle_flag);
    // Shuffling resets the cursor and clears the flag: a full 52 cards
    // can be drawn again afterwards.
    d.shuffle(1).unwrap();
    assert!(!d.shuffle_flag);
    for _ in 0..52 {
        d.get_next_card().unwrap();
    }
    assert_eq!(d.get_next_card().unwrap_err(), BlackjackGameError::Exhausted);
}

#[test]
fn deck_exhaustion_reported() {
    let mut d = Deck::from_cards(standard_deck()).unwrap();
    for _ in 0..52 {
        assert!(d.get_next_card().is_ok());
    }
    assert_eq!(d.get_next_card().unwrap_err(), BlackjackGameError::Exhausted);
}

#[test]
fn shuffle_keeps_every_card() {
    // Also exercises the randomized swap indices staying in bounds: an
    // out-of-range index would panic, a no-op generator would still have
    // to preserve the multiset checked here.
    let mut d = Deck::from_cards(standard_deck()).unwrap();
    d.shuffle(7).unwrap();
    let mut drawn = Vec::new();
    for _ in 0..52 {
        drawn.push(d.get_next_card().unwrap());
    }
    for expected in standard_deck() {
        let count = drawn.iter().filter(|c| **c == expected).count();
        assert_eq!(count, 1);
    }
}

#[test]
fn fresh_deck_is_in_fixed_order() {
    let d = Deck::new(2).unwrap();
    assert_eq!(d.cards.len(), 104);
    // The first card of each deck copy is the ace of clubs, and the
    // thirteenth begins the diamonds.
    assert_eq!(d.cards[0], card(Suit::Clubs, Rank::Ace));
    assert_eq!(d.cards[12], card(Suit::Clubs, Rank::King));
    assert_eq!(d.cards[13], card(Suit::Diamonds, Rank::Ace));
    assert_eq!(d.cards[51], card(Suit::Spades, Rank::King));
    assert_eq!(d.cards[52], card(Suit::Clubs, Rank::Ace));
}

#[test]
fn empty_hand_has_zero_total() {
    let mut h = PlayersBlackjackHand::new();
    h.compute_hand_value(0);
    assert_eq!(h.hand_values[0], vec![0]);
    assert!(!h.busted(0));
}

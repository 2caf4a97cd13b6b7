use vstd::prelude::*;

verus! {

/// One of the four French suits.
#[derive(Clone, Copy, PartialEq, Eq, Structural, Debug)]
pub enum Suit {
    Clubs,
    Diamonds,
    Hearts,
    Spades,
}

/// A card rank. Aces are valued 1 at the card level; counting an ace as 11
/// is a hand-level concept (see the hand valuation functions).
#[derive(Clone, Copy, PartialEq, Eq, Structural, Debug)]
pub enum Rank {
    Ace,
    Two,
    Three,
    Four,
    Five,
    Six,
    Seven,
    Eight,
    Nine,
    Ten,
    Jack,
    Queen,
    King,
}

/// A single playing card: a suit, a rank, and the rank's base value,
/// cached in `val` at construction time.
#[derive(Clone, Copy, PartialEq, Eq, Structural, Debug)]
pub struct Card {
    pub suit: Suit,
    pub rank: Rank,
    pub val: u8,
}

/// The base value of a rank: its face value for 2..10, 10 for the court
/// cards, and 1 for an ace.
pub open spec fn rank_value(rank: Rank) -> int {
    match rank {
        Rank::Ace => 1,
        Rank::Two => 2,
        Rank::Three => 3,
        Rank::Four => 4,
        Rank::Five => 5,
        Rank::Six => 6,
        Rank::Seven => 7,
        Rank::Eight => 8,
        Rank::Nine => 9,
        Rank::Ten => 10,
        Rank::Jack => 10,
        Rank::Queen => 10,
        Rank::King => 10,
    }
}

impl Card {
    /// A card is well formed when its cached value is its rank's base value.
    pub open spec fn wf(self) -> bool {
        self.val == rank_value(self.rank)
    }

    /// Returns the base value of `rank`: the numeric rank for 2..10,
    /// 10 for jack, queen and king, and 1 for an ace.
    pub fn get_card_value(rank: Rank) -> (v: u8)
        ensures
            v == rank_value(rank),
    {
        match rank {
            Rank::Ace => 1,
            Rank::Two => 2,
            Rank::Three => 3,
            Rank::Four => 4,
            Rank::Five => 5,
            Rank::Six => 6,
            Rank::Seven => 7,
            Rank::Eight => 8,
            Rank::Nine => 9,
            Rank::Ten => 10,
            Rank::Jack => 10,
            Rank::Queen => 10,
            Rank::King => 10,
        }
    }

    /// Returns the fixed token that renders a face-down card.
    pub fn display_facedown() -> (r: String)
        ensures
            r@ == "|*|"@,
    {
        "|*|".to_owned()
    }

    /// Creates a new card of the given suit and rank.
    pub fn new(suit: Suit, rank: Rank) -> (c: Card)
        ensures
            c.suit == suit,
            c.rank == rank,
            c.wf(),
    {
        let val = Card::get_card_value(rank);
        Card { suit, rank, val }
    }
}

/// The suit at position `s` of the fixed suit order: clubs, diamonds,
/// hearts, spades.
pub open spec fn suit_of_index(s: int) -> Suit {
    if s == 0 {
        Suit::Clubs
    } else if s == 1 {
        Suit::Diamonds
    } else if s == 2 {
        Suit::Hearts
    } else {
        Suit::Spades
    }
}

/// The rank at position `r` of the fixed rank order: ace, 2..10, jack,
/// queen, king.
pub open spec fn rank_of_index(r: int) -> Rank {
    if r == 0 {
        Rank::Ace
    } else if r == 1 {
        Rank::Two
    } else if r == 2 {
        Rank::Three
    } else if r == 3 {
        Rank::Four
    } else if r == 4 {
        Rank::Five
    } else if r == 5 {
        Rank::Six
    } else if r == 6 {
        Rank::Seven
    } else if r == 7 {
        Rank::Eight
    } else if r == 8 {
        Rank::Nine
    } else if r == 9 {
        Rank::Ten
    } else if r == 10 {
        Rank::Jack
    } else if r == 11 {
        Rank::Queen
    } else {
        Rank::King
    }
}

/// The card at position `i` of a shoe freshly built in the fixed order:
/// position `i` holds the rank `i % 13` of the suit `(i % 52) / 13`.
pub open spec fn standard_card(i: int) -> Card {
    Card {
        suit: suit_of_index((i % 52) / 13),
        rank: rank_of_index(i % 13),
        val: rank_value(rank_of_index(i % 13)) as u8,
    }
}

/// Returns the suit at position `s` of the fixed suit order.
pub fn suit_of(s: usize) -> (out: Suit)
    requires
        s < 4,
    ensures
        out == suit_of_index(s as int),
{
    if s == 0 {
        Suit::Clubs
    } else if s == 1 {
        Suit::Diamonds
    } else if s == 2 {
        Suit::Hearts
    } else {
        Suit::Spades
    }
}

/// Returns the rank at position `r` of the fixed rank order.
pub fn rank_of(r: usize) -> (out: Rank)
    requires
        r < 13,
    ensures
        out == rank_of_index(r as int),
{
    if r == 0 {
        Rank::Ace
    } else if r == 1 {
        Rank::Two
    } else if r == 2 {
        Rank::Three
    } else if r == 3 {
        Rank::Four
    } else if r == 4 {
        Rank::Five
    } else if r == 5 {
        Rank::Six
    } else if r == 6 {
        Rank::Seven
    } else if r == 7 {
        Rank::Eight
    } else if r == 8 {
        Rank::Nine
    } else if r == 9 {
        Rank::Ten
    } else if r == 10 {
        Rank::Jack
    } else if r == 11 {
        Rank::Queen
    } else {
        Rank::King
    }
}

} // verus!

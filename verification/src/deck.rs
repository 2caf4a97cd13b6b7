use vstd::prelude::*;

verus! {

use crate::card::{standard_card, Card};
use crate::error::BlackjackGameError;

/// Declares rand's thread-local generator handle so that it can be held
/// across the shuffling passes.
#[verifier::external_type_specification]
#[verifier::external_body]
pub struct ExThreadRng(rand::rngs::ThreadRng);

/// Relies on rand::thread_rng: returns a handle to the thread-local,
/// system-seeded generator. Nothing is assumed of the values it yields.
#[verifier::external_body]
fn fresh_rng() -> rand::rngs::ThreadRng {
    rand::thread_rng()
}

/// Relies on rand::Rng::gen_range over `0..bound`: the sample lies within
/// the range. It panics on an empty range, which `bound >= 1` rules out.
/// Nothing is assumed of the distribution of the samples.
#[verifier::external_body]
fn gen_index(rng: &mut rand::rngs::ThreadRng, bound: usize) -> (r: usize)
    requires
        bound >= 1,
    ensures
        r < bound,
{
    rand::Rng::gen_range(rng, 0..bound)
}

/// Swapping two positions of a sequence leaves its multiset of elements
/// unchanged.
proof fn lemma_swap_preserves_multiset(s: Seq<Card>, i: int, j: int)
    requires
        0 <= i < s.len(),
        0 <= j < s.len(),
    ensures
        s.update(i, s[j]).update(j, s[i]).to_multiset() == s.to_multiset(),
{
    broadcast use vstd::seq_lib::group_to_multiset_ensures;

    if i == j {
        assert(s.update(i, s[j]).update(j, s[i]) =~= s);
    } else {
        let s1 = s.update(i, s[j]);
        let s2 = s1.update(j, s[i]);
        assert(s1[j] == s[j]);
        assert(s.contains(s[i]));
        assert(s1.contains(s1[j]));
        assert(s2.to_multiset() =~= s.to_multiset());
    }
}

/// A shoe: an ordered collection of playing cards, dealt sequentially
/// through a cursor, with a flag that asks for a reshuffle once the cursor
/// crosses 80% of the shoe.
#[derive(Debug)]
pub struct Deck {
    pub cards: Vec<Card>,
    pub n_decks: usize,
    pub deck_pos: usize,
    pub shuffle_flag_pos: usize,
    pub shuffle_flag: bool,
}

impl Deck {
    /// Well-formedness: at least one full deck of well-formed cards, the
    /// cursor inside the shoe, the reshuffle mark at 80% of the last
    /// position, and the cursor strictly before the mark whenever the
    /// reshuffle flag is clear.
    pub open spec fn wf(self) -> bool {
        &&& self.cards@.len() >= 52
        &&& self.deck_pos <= self.cards@.len()
        &&& self.shuffle_flag_pos == (self.cards@.len() - 1) * 4 / 5
        &&& (!self.shuffle_flag ==> self.deck_pos < self.shuffle_flag_pos)
        &&& forall|i: int| 0 <= i < self.cards@.len() ==> (#[trigger] self.cards@[i]).wf()
    }

    /// How many undealt cards remain at the cursor.
    pub open spec fn spec_remaining(self) -> int {
        self.cards@.len() - self.deck_pos
    }

    /// The reshuffle mark sits at least eleven cards before the end of the
    /// shoe, so a shoe whose flag is clear always has at least twelve
    /// undealt cards.
    pub proof fn lemma_unflagged_remaining(self)
        requires
            self.wf(),
            !self.shuffle_flag,
        ensures
            self.spec_remaining() >= 12,
    {
    }

    /// Creates a shoe of `n_decks` 52-card decks in the fixed new-shoe
    /// order, cursor at the start and the reshuffle flag set, so that the
    /// first round shuffles first. Fails with `InvalidConfig` exactly when
    /// zero decks are requested.
    pub fn new(n_decks: usize) -> (r: Result<Deck, BlackjackGameError>)
        requires
            n_decks <= usize::MAX / 208,
        ensures
            match r {
                Ok(d) => {
                    &&& n_decks >= 1
                    &&& d.wf()
                    &&& d.n_decks == n_decks
                    &&& d.cards@.len() == 52 * n_decks
                    &&& d.deck_pos == 0
                    &&& d.shuffle_flag
                    &&& forall|i: int|
                        0 <= i < d.cards@.len() ==> #[trigger] d.cards@[i] == standard_card(i)
                },
                Err(e) => e == BlackjackGameError::InvalidConfig && n_decks == 0,
            },
    {
        if n_decks == 0 {
            return Err(BlackjackGameError::InvalidConfig);
        }
        let n_cards: usize = n_decks * 52;
        let mut cards: Vec<Card> = Vec::new();
        for i in 0..n_cards
            invariant
                n_cards == 52 * n_decks,
                cards@.len() == i,
                forall|k: int| 0 <= k < i ==> #[trigger] cards@[k] == standard_card(k),
        {
            let j: usize = i % 52;
            let card = Card::new(crate::card::suit_of(j / 13), crate::card::rank_of(i % 13));
            proof {
                assert(j == i as int % 52);
                assert(i as int % 13 == (i as int % 52) % 13) by {
                    vstd::arithmetic::div_mod::lemma_mod_mod(i as int, 13, 4);
                }
            }
            cards.push(card);
        }
        let shuffle_flag_pos: usize = (n_cards - 1) * 4 / 5;
        Ok(Deck { cards, n_decks, deck_pos: 0, shuffle_flag_pos, shuffle_flag: true })
    }

    /// Creates a shoe that deals the given cards in the given order until
    /// the reshuffle threshold is crossed; the reshuffle flag starts
    /// clear. Fails with `InvalidConfig` when fewer than 52 cards are
    /// supplied or any card's cached value does not match its rank.
    pub fn from_cards(cards: Vec<Card>) -> (r: Result<Deck, BlackjackGameError>)
        requires
            cards@.len() <= usize::MAX / 4,
        ensures
            match r {
                Ok(d) => {
                    &&& d.wf()
                    &&& d.cards@ == cards@
                    &&& d.deck_pos == 0
                    &&& !d.shuffle_flag
                },
                Err(e) => {
                    &&& e == BlackjackGameError::InvalidConfig
                    &&& (cards@.len() < 52 || exists|i: int|
                        0 <= i < cards@.len() && !(#[trigger] cards@[i]).wf())
                },
            },
            r is Err <==> (cards@.len() < 52 || exists|i: int|
                0 <= i < cards@.len() && !(#[trigger] cards@[i]).wf()),
    {
        if cards.len() < 52 {
            return Err(BlackjackGameError::InvalidConfig);
        }
        for i in 0..cards.len()
            invariant
                forall|k: int| 0 <= k < i ==> (#[trigger] cards@[k]).wf(),
        {
            let c = cards[i];
            if c.val != Card::get_card_value(c.rank) {
                return Err(BlackjackGameError::InvalidConfig);
            }
        }
        let n_cards: usize = cards.len();
        let shuffle_flag_pos: usize = (n_cards - 1) * 4 / 5;
        let n_decks: usize = n_cards / 52;
        Ok(Deck { cards, n_decks, deck_pos: 0, shuffle_flag_pos, shuffle_flag: false })
    }

    /// Shuffles the shoe: `n_shuffles` passes of randomized pairwise
    /// swaps (each of the first half of the positions swapped with a
    /// random position), then resets the cursor to the start and clears
    /// the reshuffle flag. The cards are rearranged but none is added or
    /// lost. Fails with `InvalidConfig` exactly when zero passes are
    /// requested, leaving the shoe unchanged.
    pub fn shuffle(&mut self, n_shuffles: u32) -> (r: Result<(), BlackjackGameError>)
        requires
            old(self).wf(),
        ensures
            match r {
                Ok(()) => {
                    &&& n_shuffles >= 1
                    &&& final(self).wf()
                    &&& final(self).cards@.len() == old(self).cards@.len()
                    &&& final(self).cards@.to_multiset() == old(self).cards@.to_multiset()
                    &&& final(self).deck_pos == 0
                    &&& !final(self).shuffle_flag
                    &&& final(self).n_decks == old(self).n_decks
                    &&& final(self).shuffle_flag_pos == old(self).shuffle_flag_pos
                },
                Err(e) => {
                    &&& e == BlackjackGameError::InvalidConfig
                    &&& n_shuffles == 0
                    &&& *final(self) == *old(self)
                },
            },
    {
        if n_shuffles == 0 {
            return Err(BlackjackGameError::InvalidConfig);
        }
        let ghost orig = self.cards@;
        let mut rng = fresh_rng();
        let n_cards: usize = self.cards.len();
        for pass in 0..n_shuffles
            invariant
                self.cards@.len() == orig.len(),
                self.cards@.to_multiset() == orig.to_multiset(),
                forall|i: int| 0 <= i < self.cards@.len() ==> (#[trigger] self.cards@[i]).wf(),
                n_cards == orig.len(),
                n_cards >= 52,
                self.deck_pos == old(self).deck_pos,
                self.n_decks == old(self).n_decks,
                self.shuffle_flag_pos == old(self).shuffle_flag_pos,
                self.shuffle_flag == old(self).shuffle_flag,
        {
            for i in 0..n_cards / 2
                invariant
                    self.cards@.len() == orig.len(),
                    self.cards@.to_multiset() == orig.to_multiset(),
                    forall|k: int| 0 <= k < self.cards@.len() ==> (#[trigger] self.cards@[k]).wf(),
                    n_cards == orig.len(),
                    n_cards >= 52,
                    self.deck_pos == old(self).deck_pos,
                    self.n_decks == old(self).n_decks,
                    self.shuffle_flag_pos == old(self).shuffle_flag_pos,
                    self.shuffle_flag == old(self).shuffle_flag,
            {
                let random_idx = gen_index(&mut rng, n_cards);
                let ghost before = self.cards@;
                let a = self.cards[i];
                let b = self.cards[random_idx];
                self.cards.set(i, b);
                self.cards.set(random_idx, a);
                proof {
                    lemma_swap_preserves_multiset(before, i as int, random_idx as int);
                }
            }
        }
        self.deck_pos = 0;
        self.shuffle_flag = false;
        Ok(())
    }

    /// Deals the card at the cursor and advances the cursor, setting the
    /// reshuffle flag once the cursor reaches the 80% mark. Fails with
    /// `Exhausted` exactly when the cursor is already at the end of the
    /// shoe, leaving the shoe unchanged.
    pub fn get_next_card(&mut self) -> (r: Result<Card, BlackjackGameError>)
        requires
            old(self).wf(),
        ensures
            final(self).wf(),
            final(self).cards@ == old(self).cards@,
            final(self).n_decks == old(self).n_decks,
            final(self).shuffle_flag_pos == old(self).shuffle_flag_pos,
            match r {
                Ok(c) => {
                    &&& old(self).deck_pos < old(self).cards@.len()
                    &&& c == old(self).cards@[old(self).deck_pos as int]
                    &&& c.wf()
                    &&& final(self).deck_pos == old(self).deck_pos + 1
                    &&& final(self).shuffle_flag == (old(self).shuffle_flag || final(self).deck_pos
                        == final(self).shuffle_flag_pos)
                },
                Err(e) => {
                    &&& e == BlackjackGameError::Exhausted
                    &&& old(self).deck_pos == old(self).cards@.len()
                    &&& *final(self) == *old(self)
                },
            },
    {
        if self.deck_pos < self.cards.len() {
            let next_card = self.cards[self.deck_pos];
            self.deck_pos = self.deck_pos + 1;
            if self.deck_pos == self.shuffle_flag_pos {
                self.shuffle_flag = true;
            }
            Ok(next_card)
        } else {
            Err(BlackjackGameError::Exhausted)
        }
    }
}

} // verus!

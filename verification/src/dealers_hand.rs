use vstd::prelude::*;

verus! {

use crate::card::Card;
use crate::deck::Deck;
use crate::error::BlackjackGameError;
use crate::hand::{
    base_sum, compute_candidates, compute_optimal_hand, has_ace, is_natural,
    lemma_base_sum_push, lemma_optimal_values_match, matches_candidates, optimal_total,
};
use crate::players_hand::busted_values;

/// The dealer's draw policy: another card must be drawn while some
/// candidate total is below 17 and no candidate total is a standing,
/// legal reading — that is, while the hard total is below 17 and either
/// there is no alternate or the alternate is itself below 17 or busted.
pub open spec fn dealer_must_draw(cards: Seq<Card>) -> bool {
    &&& base_sum(cards) < 17
    &&& (!has_ace(cards) || base_sum(cards) + 10 < 17 || base_sum(cards) + 10 > 21)
}

/// The dealer's single blackjack hand: cards and their computed candidate
/// totals. The dealer places no bets; hiding the hole card is a
/// presentation concern, not part of the value model.
#[derive(Debug)]
pub struct DealersBlackjackHand {
    pub hand: Vec<Card>,
    pub hand_value: Vec<u8>,
}

impl DealersBlackjackHand {
    /// Well-formedness: every card of the hand is well formed.
    pub open spec fn wf(self) -> bool {
        forall|i: int| 0 <= i < self.hand@.len() ==> (#[trigger] self.hand@[i]).wf()
    }

    /// The stored candidate totals are the candidate totals of the cards.
    pub open spec fn values_current(self) -> bool {
        matches_candidates(self.hand_value@, self.hand@)
    }

    /// Creates an empty dealer hand.
    pub fn new() -> (h: Self)
        ensures
            h.wf(),
            h.hand@.len() == 0,
            h.hand_value@.len() == 0,
    {
        DealersBlackjackHand { hand: Vec::new(), hand_value: Vec::new() }
    }

    /// Whether the dealer's hand has busted: every stored candidate total
    /// exceeds 21.
    pub fn busted(&self) -> (r: bool)
        requires
            1 <= self.hand_value@.len() <= 2,
        ensures
            r == busted_values(self.hand_value@),
    {
        if self.hand_value.len() == 2 {
            self.hand_value[0] > 21 && self.hand_value[1] > 21
        } else {
            self.hand_value[0] > 21
        }
    }

    /// Whether the dealer's hand is a natural blackjack: two cards, an
    /// ace and a ten-valued card in either order.
    pub fn is_blackjack(&self) -> (r: bool)
        ensures
            r == is_natural(self.hand@),
    {
        self.hand.len() == 2
            && ((matches!(self.hand[0].rank, crate::card::Rank::Ace) && self.hand[1].val == 10)
            || (self.hand[0].val == 10 && matches!(self.hand[1].rank, crate::card::Rank::Ace)))
    }

    /// Recomputes the dealer's candidate totals from the cards.
    pub fn compute_hand_value(&mut self)
        requires
            old(self).wf(),
            base_sum(old(self).hand@) + 10 <= u8::MAX,
        ensures
            final(self).wf(),
            final(self).hand@ == old(self).hand@,
            final(self).values_current(),
    {
        self.hand_value = compute_candidates(&self.hand);
    }

    /// Appends `card` to the dealer's hand. The stored candidate totals
    /// are stale until `compute_hand_value` is called.
    pub fn receive_card(&mut self, card: Card)
        requires
            old(self).wf(),
            card.wf(),
        ensures
            final(self).wf(),
            final(self).hand@ == old(self).hand@.push(card),
            final(self).hand_value@ == old(self).hand_value@,
    {
        self.hand.push(card);
    }

    /// Plays the dealer's hand to completion: draws from `deck` while the
    /// draw policy requires it, then returns the optimal final reading.
    /// Every card drawn extends the hand in deck order, and each draw was
    /// forced by the policy. Fails with `Exhausted` exactly when the shoe
    /// runs out while a draw is still required.
    pub fn compute_optimal_final_hand(&mut self, deck: &mut Deck) -> (r: Result<
        u8,
        BlackjackGameError,
    >)
        requires
            old(self).wf(),
            old(self).values_current(),
            old(deck).wf(),
        ensures
            final(self).wf(),
            final(self).values_current(),
            final(deck).wf(),
            final(deck).cards@ == old(deck).cards@,
            final(deck).n_decks == old(deck).n_decks,
            final(deck).shuffle_flag_pos == old(deck).shuffle_flag_pos,
            old(deck).deck_pos <= final(deck).deck_pos,
            final(deck).shuffle_flag == (old(deck).shuffle_flag || (old(deck).deck_pos
                < final(deck).shuffle_flag_pos <= final(deck).deck_pos)),
            final(self).hand@ == old(self).hand@ + final(deck).cards@.subrange(
                old(deck).deck_pos as int,
                final(deck).deck_pos as int,
            ),
            forall|k: int|
                old(self).hand@.len() <= k < final(self).hand@.len() ==> dealer_must_draw(
                    final(self).hand@.take(k),
                ),
            match r {
                Ok(v) => {
                    &&& !dealer_must_draw(final(self).hand@)
                    &&& v == optimal_total(final(self).hand@)
                },
                Err(e) => {
                    &&& e == BlackjackGameError::Exhausted
                    &&& final(deck).deck_pos == final(deck).cards@.len()
                    &&& dealer_must_draw(final(self).hand@)
                },
            },
    {
        let ghost orig_hand = self.hand@;
        let ghost orig_cards = deck.cards@;
        let ghost orig_len = self.hand@.len();
        let ghost orig_pos = deck.deck_pos as int;
        let ghost orig_flag = deck.shuffle_flag;
        let ghost orig_flag_pos = deck.shuffle_flag_pos as int;
        let ghost orig_n_decks = deck.n_decks;
        loop
            invariant
                self.wf(),
                self.values_current(),
                deck.wf(),
                deck.cards@ == orig_cards,
                orig_hand == old(self).hand@,
                orig_cards == old(deck).cards@,
                orig_pos == old(deck).deck_pos,
                orig_len == old(self).hand@.len(),
                orig_flag == old(deck).shuffle_flag,
                orig_flag_pos == old(deck).shuffle_flag_pos,
                orig_n_decks == old(deck).n_decks,
                deck.n_decks == orig_n_decks,
                deck.shuffle_flag_pos == orig_flag_pos,
                deck.shuffle_flag == (orig_flag || (orig_pos < orig_flag_pos <= deck.deck_pos)),
                0 <= orig_pos <= deck.deck_pos,
                orig_len == orig_hand.len(),
                orig_len <= self.hand@.len(),
                self.hand@ == orig_hand + deck.cards@.subrange(orig_pos, deck.deck_pos as int),
                forall|k: int|
                    orig_len <= k < self.hand@.len() ==> dealer_must_draw(self.hand@.take(k)),
            decreases deck.cards@.len() - deck.deck_pos,
        {
            let vals_len = self.hand_value.len();
            let must_draw = if vals_len == 2 {
                (self.hand_value[0] < 17 && self.hand_value[1] < 17) || (self.hand_value[0] < 17
                    && self.hand_value[1] > 21) || (self.hand_value[0] > 21 && self.hand_value[1]
                    < 17)
            } else {
                self.hand_value[0] < 17
            };
            proof {
                assert(must_draw == dealer_must_draw(self.hand@));
            }
            if !must_draw {
                let value = compute_optimal_hand(&self.hand_value);
                proof {
                    lemma_optimal_values_match(self.hand_value@, self.hand@);
                }
                return Ok(value);
            }
            let ghost hand_before = self.hand@;
            match deck.get_next_card() {
                Err(e) => {
                    return Err(e);
                },
                Ok(card) => {
                    self.receive_card(card);
                    proof {
                        lemma_base_sum_push(hand_before, card);
                        let pre = deck.deck_pos as int - 1;
                        assert(self.hand@ == hand_before.push(card));
                        assert(self.hand@.take(hand_before.len() as int) =~= hand_before);
                        assert(card == deck.cards@[pre]);
                        assert(hand_before == orig_hand + deck.cards@.subrange(orig_pos, pre));
                        assert(deck.cards@.subrange(orig_pos, pre + 1) =~= deck.cards@.subrange(
                            orig_pos,
                            pre,
                        ).push(card));
                        assert(orig_hand + deck.cards@.subrange(orig_pos, pre).push(card) =~= (
                        orig_hand + deck.cards@.subrange(orig_pos, pre)).push(card));
                        assert(self.hand@ == orig_hand + deck.cards@.subrange(
                            orig_pos,
                            deck.deck_pos as int,
                        ));
                        assert forall|k: int|
                            orig_len <= k < self.hand@.len() implies dealer_must_draw(
                            self.hand@.take(k),
                        ) by {
                            if k < hand_before.len() {
                                assert(self.hand@.take(k) =~= hand_before.take(k));
                            }
                        }
                    }
                    self.compute_hand_value();
                },
            }
        }
    }

    /// Resets the dealer's hand to empty for a new round.
    pub fn reset(&mut self)
        ensures
            final(self).wf(),
            final(self).hand@.len() == 0,
            final(self).hand_value@.len() == 0,
    {
        self.hand.clear();
        self.hand_value.clear();
    }
}

} // verus!

use vstd::prelude::*;

verus! {

use crate::card::{Card, Rank};
use crate::hand::{base_sum, compute_candidates, is_natural, matches_candidates};

/// Whether a candidate total allows doubling down: 9, 10 or 11.
pub open spec fn doubling_total(v: u8) -> bool {
    v == 9 || v == 10 || v == 11
}

/// The candidate list `vals`, as a hand stores it, reads as busted: every
/// stored candidate exceeds 21.
pub open spec fn busted_values(vals: Seq<u8>) -> bool {
    if vals.len() == 2 {
        vals[0] > 21 && vals[1] > 21
    } else {
        vals[0] > 21
    }
}

/// A player's one-to-four concurrent blackjack hands (extra hands are
/// created by splitting), with the computed candidate totals and the bet
/// of each hand, indexed in parallel.
#[derive(Debug)]
pub struct PlayersBlackjackHand {
    pub hand: Vec<Vec<Card>>,
    pub hand_values: Vec<Vec<u8>>,
    pub bets: Vec<u64>,
}

impl PlayersBlackjackHand {
    /// The cards of hand `i`.
    pub open spec fn hand_at(self, i: int) -> Seq<Card> {
        self.hand@[i]@
    }

    /// The stored candidate totals of hand `i`.
    pub open spec fn values_at(self, i: int) -> Seq<u8> {
        self.hand_values@[i]@
    }

    /// Well-formedness: one to four hands, one value list per hand, a bet
    /// per hand except before any bet is placed (or after a natural is
    /// resolved, which consumes the bet), and well-formed cards
    /// throughout.
    pub open spec fn wf(self) -> bool {
        &&& self.hand@.len() == self.hand_values@.len()
        &&& 1 <= self.hand@.len() <= 4
        &&& (self.bets@.len() == 0 || self.bets@.len() == self.hand@.len())
        &&& forall|i: int, j: int|
            0 <= i < self.hand@.len() && 0 <= j < self.hand_at(i).len() ==> (#[trigger] self.hand@[i]@[j]).wf()
    }

    /// The stored candidate totals of hand `i` are the candidate totals of
    /// its cards.
    pub open spec fn values_current(self, i: int) -> bool {
        matches_candidates(self.values_at(i), self.hand_at(i))
    }

    /// Creates an empty hand group: a single empty hand, no values
    /// computed, no bets placed.
    pub fn new() -> (h: Self)
        ensures
            h.wf(),
            h.hand@.len() == 1,
            h.hand_at(0).len() == 0,
            h.hand_values@.len() == 1,
            h.values_at(0).len() == 0,
            h.bets@.len() == 0,
    {
        let mut hand: Vec<Vec<Card>> = Vec::new();
        hand.push(Vec::new());
        let mut hand_values: Vec<Vec<u8>> = Vec::new();
        hand_values.push(Vec::new());
        let bets: Vec<u64> = Vec::new();
        PlayersBlackjackHand { hand, hand_values, bets }
    }

    /// Records the bet of the round's first hand.
    pub fn place_bet(&mut self, bet: u64)
        requires
            old(self).wf(),
            old(self).bets@.len() == 0,
            old(self).hand@.len() == 1,
        ensures
            final(self).wf(),
            final(self).bets@ == old(self).bets@.push(bet),
            final(self).hand@ == old(self).hand@,
            final(self).hand_values@ == old(self).hand_values@,
    {
        self.bets.push(bet);
    }

    /// Zeroes the bet of hand `hand_idx`, signalling forfeiture to
    /// settlement, and returns the forfeited amount.
    pub fn lose_bet(&mut self, hand_idx: usize) -> (bet: u64)
        requires
            old(self).wf(),
            hand_idx < old(self).bets@.len(),
        ensures
            final(self).wf(),
            bet == old(self).bets@[hand_idx as int],
            final(self).bets@ == old(self).bets@.update(hand_idx as int, 0u64),
            final(self).hand@ == old(self).hand@,
            final(self).hand_values@ == old(self).hand_values@,
    {
        let res = self.bets[hand_idx];
        self.bets.set(hand_idx, 0);
        res
    }

    /// Whether hand `hand_idx` may be split: exactly two cards of the
    /// same rank. (Funds and the house's hand limit are checked at the
    /// player level.)
    pub fn can_split(&self, hand_idx: usize) -> (r: bool)
        requires
            self.wf(),
            hand_idx < self.hand@.len(),
        ensures
            r == (self.hand_at(hand_idx as int).len() == 2 && self.hand_at(hand_idx as int)[0].rank
                == self.hand_at(hand_idx as int)[1].rank),
    {
        self.hand[hand_idx].len() == 2 && self.hand[hand_idx][0].rank == self.hand[hand_idx][1].rank
    }

    /// Whether hand `hand_idx` may double down: it is the round's first
    /// hand (doubling down after a split is not offered), holds exactly
    /// two cards, and one of its candidate totals is 9, 10 or 11. (Funds
    /// are checked at the player level.)
    pub fn can_double_down(&self, hand_idx: usize) -> (r: bool)
        requires
            self.wf(),
            hand_idx < self.hand@.len(),
            1 <= self.values_at(hand_idx as int).len() <= 2,
        ensures
            r == (hand_idx == 0 && self.hand_at(hand_idx as int).len() == 2 && exists|k: int|
                0 <= k < self.values_at(hand_idx as int).len() && doubling_total(
                    #[trigger] self.values_at(hand_idx as int)[k],
                )),
    {
        let vals = &self.hand_values[hand_idx];
        let first = vals[0] == 9 || vals[0] == 10 || vals[0] == 11;
        let second = vals.len() == 2 && (vals[1] == 9 || vals[1] == 10 || vals[1] == 11);
        let r = hand_idx == 0 && self.hand[hand_idx].len() == 2 && (first || second);
        proof {
            let ghost vs = self.values_at(hand_idx as int);
            if first {
                assert(doubling_total(vs[0]));
            }
            if second {
                assert(doubling_total(vs[1]));
            }
            if exists|k: int| 0 <= k < vs.len() && doubling_total(#[trigger] vs[k]) {
                let k = choose|k: int| 0 <= k < vs.len() && doubling_total(#[trigger] vs[k]);
                assert(k == 0 || k == 1);
            }
        }
        r
    }

    /// Appends `card` to hand `hand_idx`. The hand's stored candidate
    /// totals are stale until `compute_hand_value` is called.
    pub fn receive_card(&mut self, card: Card, hand_idx: usize)
        requires
            old(self).wf(),
            card.wf(),
            hand_idx < old(self).hand@.len(),
        ensures
            final(self).wf(),
            final(self).hand@.len() == old(self).hand@.len(),
            final(self).hand_at(hand_idx as int) == old(self).hand_at(hand_idx as int).push(card),
            forall|k: int|
                0 <= k < old(self).hand@.len() && k != hand_idx ==> final(self).hand_at(k)
                    == old(self).hand_at(k),
            final(self).hand_values@ == old(self).hand_values@,
            final(self).bets@ == old(self).bets@,
    {
        let mut cur = self.hand.remove(hand_idx);
        cur.push(card);
        self.hand.insert(hand_idx, cur);
    }

    /// Doubles the bet of hand `hand_idx` and returns the original bet,
    /// so the player's balance can be debited by that amount.
    pub fn double_down(&mut self, hand_idx: usize) -> (cur_bet: u64)
        requires
            old(self).wf(),
            hand_idx < old(self).bets@.len(),
            old(self).bets@[hand_idx as int] * 2 <= u64::MAX,
        ensures
            final(self).wf(),
            cur_bet == old(self).bets@[hand_idx as int],
            final(self).bets@ == old(self).bets@.update(
                hand_idx as int,
                (cur_bet * 2) as u64,
            ),
            final(self).hand@ == old(self).hand@,
            final(self).hand_values@ == old(self).hand_values@,
    {
        let cur_bet = self.bets[hand_idx];
        self.bets.set(hand_idx, cur_bet * 2);
        cur_bet
    }

    /// Splits hand `hand_idx`: its second card becomes a new hand
    /// inserted immediately after it, the bet is duplicated for the new
    /// hand, and both hands' stored candidate totals are cleared until
    /// recomputed. Returns the duplicated bet, so the player's balance
    /// can be debited by that amount.
    pub fn split(&mut self, hand_idx: usize) -> (cur_bet: u64)
        requires
            old(self).wf(),
            old(self).bets@.len() == old(self).hand@.len(),
            hand_idx < old(self).hand@.len(),
            old(self).hand@.len() < 4,
            old(self).hand_at(hand_idx as int).len() == 2,
        ensures
            final(self).wf(),
            cur_bet == old(self).bets@[hand_idx as int],
            final(self).hand@.len() == old(self).hand@.len() + 1,
            final(self).hand_values@.len() == old(self).hand_values@.len() + 1,
            final(self).bets@ == old(self).bets@.insert(hand_idx + 1, cur_bet),
            final(self).hand_at(hand_idx as int) == seq![
                old(self).hand_at(hand_idx as int)[0],
            ],
            final(self).hand_at(hand_idx + 1) == seq![old(self).hand_at(hand_idx as int)[1]],
            final(self).values_at(hand_idx as int).len() == 0,
            final(self).values_at(hand_idx + 1).len() == 0,
            forall|k: int|
                0 <= k < hand_idx ==> final(self).hand_at(k) == old(self).hand_at(k)
                    && final(self).values_at(k) == old(self).values_at(k),
            forall|k: int|
                hand_idx + 2 <= k < final(self).hand@.len() ==> final(self).hand_at(k) == old(
                    self,
                ).hand_at(k - 1) && final(self).values_at(k) == old(self).values_at(k - 1),
    {
        let cur_bet = self.bets[hand_idx];
        self.bets.insert(hand_idx + 1, cur_bet);

        let mut split_hand = self.hand.remove(hand_idx);
        let moved = split_hand.pop().unwrap();
        let mut new_hand: Vec<Card> = Vec::new();
        new_hand.push(moved);
        self.hand.insert(hand_idx, split_hand);
        self.hand.insert(hand_idx + 1, new_hand);

        let mut cleared = self.hand_values.remove(hand_idx);
        cleared.clear();
        self.hand_values.insert(hand_idx, cleared);
        self.hand_values.insert(hand_idx + 1, Vec::new());

        cur_bet
    }

    /// Recomputes the candidate totals of hand `hand_idx` from its cards.
    pub fn compute_hand_value(&mut self, hand_idx: usize)
        requires
            old(self).wf(),
            hand_idx < old(self).hand@.len(),
            base_sum(old(self).hand_at(hand_idx as int)) + 10 <= u8::MAX,
        ensures
            final(self).wf(),
            final(self).values_current(hand_idx as int),
            final(self).hand@ == old(self).hand@,
            final(self).bets@ == old(self).bets@,
            final(self).hand_values@.len() == old(self).hand_values@.len(),
            forall|k: int|
                0 <= k < old(self).hand_values@.len() && k != hand_idx ==> final(self).values_at(k)
                    == old(self).values_at(k),
    {
        let vals = compute_candidates(&self.hand[hand_idx]);
        self.hand_values.set(hand_idx, vals);
    }

    /// Whether the player's current position is a natural blackjack: the
    /// round's first and only dealt hand holding an ace and a ten-valued
    /// card.
    pub fn is_blackjack(&self, hand_idx: usize) -> (r: bool)
        requires
            self.wf(),
        ensures
            r == (hand_idx == 0 && is_natural(self.hand_at(0))),
    {
        hand_idx == 0 && self.hand[0].len() == 2
            && ((matches!(self.hand[0][0].rank, Rank::Ace) && self.hand[0][1].val == 10)
            || (self.hand[0][0].val == 10 && matches!(self.hand[0][1].rank, Rank::Ace)))
    }

    /// Whether hand `hand_idx` has busted: every stored candidate total
    /// exceeds 21.
    pub fn busted(&self, hand_idx: usize) -> (r: bool)
        requires
            self.wf(),
            hand_idx < self.hand_values@.len(),
            1 <= self.values_at(hand_idx as int).len() <= 2,
        ensures
            r == busted_values(self.values_at(hand_idx as int)),
    {
        if self.hand_values[hand_idx].len() == 2 {
            self.hand_values[hand_idx][0] > 21 && self.hand_values[hand_idx][1] > 21
        } else {
            self.hand_values[hand_idx][0] > 21
        }
    }

    /// Resets the group to a single empty hand with no bets.
    pub fn reset(&mut self)
        ensures
            final(self).wf(),
            final(self).hand@.len() == 1,
            final(self).hand_at(0).len() == 0,
            final(self).hand_values@.len() == 1,
            final(self).values_at(0).len() == 0,
            final(self).bets@.len() == 0,
    {
        self.hand = Vec::new();
        self.hand.push(Vec::new());
        self.hand_values = Vec::new();
        self.hand_values.push(Vec::new());
        self.bets = Vec::new();
    }
}

} // verus!

use vstd::prelude::*;

verus! {

use crate::card::Card;
use crate::error::BlackjackGameError;
use crate::hand::{base_sum, compute_optimal_hand, is_natural, optimal_of_values};
use crate::players_hand::{busted_values, doubling_total, PlayersBlackjackHand};

/// One of the actions a player may take on the active hand.
#[derive(Clone, Copy, PartialEq, Eq, Structural, Debug)]
pub enum PlayerAction {
    Stand,
    Hit,
    Split,
    DoubleDown,
}

/// The total of a list of bets.
pub open spec fn bets_total(s: Seq<u64>) -> int
    decreases s.len(),
{
    if s.len() == 0 {
        0
    } else {
        bets_total(s.drop_last()) + s.last()
    }
}

/// A total of bets is never negative.
pub proof fn lemma_bets_total_nonneg(s: Seq<u64>)
    ensures
        bets_total(s) >= 0,
    decreases s.len(),
{
    if s.len() > 0 {
        lemma_bets_total_nonneg(s.drop_last());
    }
}

/// Appending a bet adds it to the total.
pub proof fn lemma_bets_total_push(s: Seq<u64>, v: u64)
    ensures
        bets_total(s.push(v)) == bets_total(s) + v,
{
    assert(s.push(v).drop_last() =~= s);
}

/// A single bet's total is that bet.
pub proof fn lemma_bets_total_singleton(v: u64)
    ensures
        bets_total(seq![v]) == v,
{
    assert(bets_total(Seq::<u64>::empty()) == 0);
    assert(seq![v].drop_last() =~= Seq::<u64>::empty());
    assert(seq![v].last() == v);
}

/// Replacing a bet adjusts the total by the difference.
pub proof fn lemma_bets_total_update(s: Seq<u64>, i: int, v: u64)
    requires
        0 <= i < s.len(),
    ensures
        bets_total(s.update(i, v)) == bets_total(s) - s[i] + v,
    decreases s.len(),
{
    if i == s.len() - 1 {
        assert(s.update(i, v).drop_last() =~= s.drop_last());
    } else {
        assert(s.update(i, v).drop_last() =~= s.drop_last().update(i, v));
        lemma_bets_total_update(s.drop_last(), i, v);
    }
}

/// Inserting a bet adds it to the total.
pub proof fn lemma_bets_total_insert(s: Seq<u64>, i: int, v: u64)
    requires
        0 <= i <= s.len(),
    ensures
        bets_total(s.insert(i, v)) == bets_total(s) + v,
    decreases s.len(),
{
    if i == s.len() {
        assert(s.insert(i, v) =~= s.push(v));
        lemma_bets_total_push(s, v);
    } else {
        assert(s.insert(i, v).drop_last() =~= s.drop_last().insert(i, v));
        assert(s.insert(i, v).last() == s.last());
        lemma_bets_total_insert(s.drop_last(), i, v);
    }
}

/// A list of all-zero bets totals zero.
pub proof fn lemma_bets_total_zero(s: Seq<u64>)
    requires
        forall|i: int| 0 <= i < s.len() ==> s[i] == 0,
    ensures
        bets_total(s) == 0,
    decreases s.len(),
{
    if s.len() > 0 {
        assert(forall|i: int| 0 <= i < s.drop_last().len() ==> s.drop_last()[i] == s[i]);
        lemma_bets_total_zero(s.drop_last());
    }
}

/// Every bet is at most the total of its list.
pub proof fn lemma_bets_total_elem_le(s: Seq<u64>, i: int)
    requires
        0 <= i < s.len(),
    ensures
        s[i] <= bets_total(s),
    decreases s.len(),
{
    lemma_bets_total_nonneg(s.drop_last());
    if i < s.len() - 1 {
        lemma_bets_total_elem_le(s.drop_last(), i);
    }
}

/// A player at the table: a balance, the player's current group of
/// blackjack hands, and the index of the hand currently being played.
/// The active-hand index only ever increases during a round; the player's
/// turn is over once it reaches the number of bets.
#[derive(Debug)]
pub struct Player {
    pub name: String,
    pub balance: u64,
    pub bj_hand: PlayersBlackjackHand,
    pub hand_idx: usize,
}

impl Player {
    /// Well-formedness: a well-formed hand group and an active-hand index
    /// no greater than the number of bets.
    pub open spec fn wf(self) -> bool {
        &&& self.bj_hand.wf()
        &&& self.hand_idx <= self.bj_hand.bets@.len()
    }

    /// The active-hand index as a mathematical integer.
    pub open spec fn active(self) -> int {
        self.hand_idx as int
    }

    /// The money the player has committed to the table this round: the
    /// balance still held plus every bet on the felt.
    pub open spec fn spec_committed(self) -> int {
        self.balance + bets_total(self.bj_hand.bets@)
    }

    /// Splitting the active hand is allowed: exactly two cards of equal
    /// rank, funds covering a second bet of the same size, and fewer than
    /// four hands.
    pub open spec fn spec_split_allowed(self) -> bool {
        let i = self.active();
        &&& self.bj_hand.hand_at(i).len() == 2
        &&& self.bj_hand.hand_at(i)[0].rank == self.bj_hand.hand_at(i)[1].rank
        &&& self.balance >= self.bj_hand.bets@[i]
        &&& self.bj_hand.hand@.len() < 4
    }

    /// Doubling down on the active hand is allowed: it is the round's
    /// only, unsplit hand, holds exactly two cards, one candidate total is
    /// 9, 10 or 11, and funds cover doubling the bet.
    pub open spec fn spec_double_allowed(self) -> bool {
        let i = self.active();
        &&& i == 0
        &&& self.bj_hand.hand_at(0).len() == 2
        &&& exists|k: int|
            0 <= k < self.bj_hand.values_at(0).len() && doubling_total(
                #[trigger] self.bj_hand.values_at(0)[k],
            )
        &&& self.balance >= self.bj_hand.bets@[0]
        &&& self.bj_hand.hand@.len() == 1
    }

    /// No hand carries a live (nonzero) bet any more.
    pub open spec fn no_live_bets(self) -> bool {
        forall|i: int| 0 <= i < self.bj_hand.bets@.len() ==> self.bj_hand.bets@[i] == 0
    }

    /// The ordered legal options for the active hand: stand and hit are
    /// always offered, then split if allowed, then double down if
    /// allowed.
    pub open spec fn spec_legal_options(self) -> Seq<PlayerAction> {
        seq![PlayerAction::Stand, PlayerAction::Hit] + (if self.spec_split_allowed() {
            seq![PlayerAction::Split]
        } else {
            Seq::<PlayerAction>::empty()
        }) + (if self.spec_double_allowed() {
            seq![PlayerAction::DoubleDown]
        } else {
            Seq::<PlayerAction>::empty()
        })
    }

    /// Creates a new player with the given name and starting balance.
    pub fn new(name: String, balance: u64) -> (p: Player)
        ensures
            p.wf(),
            p.balance == balance,
            p.hand_idx == 0,
            p.bj_hand.hand@.len() == 1,
            p.bj_hand.hand_at(0).len() == 0,
            p.bj_hand.bets@.len() == 0,
    {
        Player { name, balance, bj_hand: PlayersBlackjackHand::new(), hand_idx: 0 }
    }

    /// Advances the active-hand index by one, finishing the active hand.
    pub fn stand(&mut self)
        requires
            old(self).wf(),
            old(self).hand_idx < old(self).bj_hand.bets@.len(),
        ensures
            final(self).wf(),
            final(self).hand_idx == old(self).hand_idx + 1,
            final(self).balance == old(self).balance,
            final(self).bj_hand == old(self).bj_hand,
    {
        self.hand_idx = self.hand_idx + 1;
    }

    /// Whether the player's turn is over: the active-hand index has
    /// passed every bet-carrying hand.
    pub fn turn_is_over(&self) -> (r: bool)
        ensures
            r == (self.hand_idx == self.bj_hand.bets@.len()),
    {
        self.hand_idx == self.bj_hand.bets.len()
    }

    /// Places the round's bet: fails with `InvalidBet` on a zero bet and
    /// with `InsufficientFunds` on a bet exceeding the balance, changing
    /// nothing; otherwise deducts the bet from the balance and records
    /// it. The money committed to the table is unchanged either way.
    pub fn place_bet(&mut self, bet: u64) -> (r: Result<(), BlackjackGameError>)
        requires
            old(self).wf(),
            old(self).bj_hand.bets@.len() == 0,
            old(self).bj_hand.hand@.len() == 1,
            old(self).hand_idx == 0,
        ensures
            final(self).wf(),
            final(self).spec_committed() == old(self).spec_committed(),
            final(self).hand_idx == 0,
            final(self).bj_hand.hand@ == old(self).bj_hand.hand@,
            final(self).bj_hand.hand_values@ == old(self).bj_hand.hand_values@,
            match r {
                Ok(()) => {
                    &&& 0 < bet <= old(self).balance
                    &&& final(self).balance == old(self).balance - bet
                    &&& final(self).bj_hand.bets@ == seq![bet]
                },
                Err(e) => {
                    &&& *final(self) == *old(self)
                    &&& (if bet == 0 {
                        e == BlackjackGameError::InvalidBet
                    } else {
                        e == BlackjackGameError::InsufficientFunds && bet > old(self).balance
                    })
                },
            },
            r is Ok <==> 0 < bet <= old(self).balance,
    {
        if bet == 0 {
            return Err(BlackjackGameError::InvalidBet);
        }
        if bet > self.balance {
            return Err(BlackjackGameError::InsufficientFunds);
        }
        self.balance = self.balance - bet;
        self.bj_hand.place_bet(bet);
        proof {
            lemma_bets_total_push(old(self).bj_hand.bets@, bet);
            assert(old(self).bj_hand.bets@ =~= Seq::<u64>::empty());
            assert(self.bj_hand.bets@ =~= seq![bet]);
        }
        Ok(())
    }

    /// Forfeits the active hand's bet: zeroes it, advances the
    /// active-hand index, and returns the forfeited amount (to be
    /// credited to the table bank). The forfeited amount leaves the
    /// money the player has committed.
    pub fn lose_bet(&mut self) -> (bet: u64)
        requires
            old(self).wf(),
            old(self).hand_idx < old(self).bj_hand.bets@.len(),
        ensures
            final(self).wf(),
            bet == old(self).bj_hand.bets@[old(self).active()],
            final(self).balance == old(self).balance,
            final(self).hand_idx == old(self).hand_idx + 1,
            final(self).bj_hand.bets@ == old(self).bj_hand.bets@.update(old(self).active(), 0u64),
            final(self).bj_hand.hand@ == old(self).bj_hand.hand@,
            final(self).bj_hand.hand_values@ == old(self).bj_hand.hand_values@,
            final(self).spec_committed() == old(self).spec_committed() - bet,
    {
        let bet = self.bj_hand.lose_bet(self.hand_idx);
        self.hand_idx = self.hand_idx + 1;
        proof {
            lemma_bets_total_update(old(self).bj_hand.bets@, old(self).active(), 0u64);
        }
        bet
    }

    /// Lists the numbered playing options for the active hand, in the
    /// fixed precedence order: stand, hit, then split and double down
    /// when allowed.
    pub fn get_playing_options(&self) -> (r: Vec<PlayerAction>)
        requires
            self.wf(),
            self.hand_idx < self.bj_hand.bets@.len(),
            1 <= self.bj_hand.values_at(self.active()).len() <= 2,
            !busted_values(self.bj_hand.values_at(self.active())),
        ensures
            r@ == self.spec_legal_options(),
    {
        let mut options: Vec<PlayerAction> = Vec::new();
        options.push(PlayerAction::Stand);
        options.push(PlayerAction::Hit);

        if self.bj_hand.can_split(self.hand_idx) && self.balance >= self.bj_hand.bets[self.hand_idx]
            && self.bj_hand.hand.len() < 4 {
            options.push(PlayerAction::Split);
        }

        if self.bj_hand.can_double_down(self.hand_idx) && self.balance
            >= self.bj_hand.bets[self.hand_idx] && self.bj_hand.hand.len() == 1 {
            options.push(PlayerAction::DoubleDown);
        }

        proof {
            assert(options@ =~= self.spec_legal_options());
        }
        options
    }

    /// Deals `card` to the active hand; the hand's stored candidate
    /// totals are stale until `compute_hand_value` is called.
    pub fn receive_card(&mut self, card: Card)
        requires
            old(self).wf(),
            card.wf(),
            old(self).hand_idx < old(self).bj_hand.hand@.len(),
        ensures
            final(self).wf(),
            final(self).balance == old(self).balance,
            final(self).hand_idx == old(self).hand_idx,
            final(self).bj_hand.hand@.len() == old(self).bj_hand.hand@.len(),
            final(self).bj_hand.hand_at(old(self).active()) == old(self).bj_hand.hand_at(
                old(self).active(),
            ).push(card),
            forall|k: int|
                0 <= k < old(self).bj_hand.hand@.len() && k != old(self).active()
                    ==> final(self).bj_hand.hand_at(k) == old(self).bj_hand.hand_at(k),
            final(self).bj_hand.hand_values@ == old(self).bj_hand.hand_values@,
            final(self).bj_hand.bets@ == old(self).bj_hand.bets@,
    {
        self.bj_hand.receive_card(card, self.hand_idx);
    }

    /// Doubles the active hand's bet, deducting the extra bet from the
    /// balance. The money committed to the table is unchanged.
    pub fn double_down(&mut self)
        requires
            old(self).wf(),
            old(self).hand_idx < old(self).bj_hand.bets@.len(),
            old(self).balance >= old(self).bj_hand.bets@[old(self).active()],
            old(self).spec_committed() <= u64::MAX,
        ensures
            final(self).wf(),
            final(self).hand_idx == old(self).hand_idx,
            final(self).balance == old(self).balance - old(self).bj_hand.bets@[old(self).active()],
            final(self).bj_hand.bets@ == old(self).bj_hand.bets@.update(
                old(self).active(),
                (old(self).bj_hand.bets@[old(self).active()] * 2) as u64,
            ),
            final(self).bj_hand.hand@ == old(self).bj_hand.hand@,
            final(self).bj_hand.hand_values@ == old(self).bj_hand.hand_values@,
            final(self).spec_committed() == old(self).spec_committed(),
    {
        proof {
            lemma_bets_total_elem_le(old(self).bj_hand.bets@, old(self).active());
            lemma_bets_total_nonneg(old(self).bj_hand.bets@);
            assert(old(self).bj_hand.bets@[old(self).active()] * 2 <= u64::MAX);
        }
        let cur_bet = self.bj_hand.double_down(self.hand_idx);
        self.balance = self.balance - cur_bet;
        proof {
            lemma_bets_total_update(
                old(self).bj_hand.bets@,
                old(self).active(),
                (old(self).bj_hand.bets@[old(self).active()] * 2) as u64,
            );
        }
    }

    /// Splits the active hand into two: the second card starts a new hand
    /// inserted immediately after the active one, the bet is duplicated
    /// for it and deducted from the balance, and each resulting hand is
    /// dealt one of the given cards and has its candidate totals
    /// recomputed. The money committed to the table is unchanged.
    pub fn split(&mut self, card1: Card, card2: Card)
        requires
            old(self).wf(),
            card1.wf(),
            card2.wf(),
            old(self).bj_hand.bets@.len() == old(self).bj_hand.hand@.len(),
            old(self).hand_idx < old(self).bj_hand.hand@.len(),
            old(self).bj_hand.hand@.len() < 4,
            old(self).bj_hand.hand_at(old(self).active()).len() == 2,
            old(self).balance >= old(self).bj_hand.bets@[old(self).active()],
        ensures
            final(self).wf(),
            final(self).hand_idx == old(self).hand_idx,
            final(self).balance == old(self).balance - old(self).bj_hand.bets@[old(self).active()],
            final(self).spec_committed() == old(self).spec_committed(),
            final(self).bj_hand.hand@.len() == old(self).bj_hand.hand@.len() + 1,
            final(self).bj_hand.bets@ == old(self).bj_hand.bets@.insert(
                old(self).active() + 1,
                old(self).bj_hand.bets@[old(self).active()],
            ),
            final(self).bj_hand.hand_at(old(self).active()) == seq![
                old(self).bj_hand.hand_at(old(self).active())[0],
                card1,
            ],
            final(self).bj_hand.hand_at(old(self).active() + 1) == seq![
                old(self).bj_hand.hand_at(old(self).active())[1],
                card2,
            ],
            final(self).bj_hand.values_current(old(self).active()),
            final(self).bj_hand.values_current(old(self).active() + 1),
            forall|k: int|
                0 <= k < old(self).active() ==> final(self).bj_hand.hand_at(k) == old(self).bj_hand.hand_at(k) && final(self).bj_hand.values_at(k) == old(self).bj_hand.values_at(k),
            forall|k: int|
                old(self).active() + 2 <= k < final(self).bj_hand.hand@.len() ==> final(self).bj_hand.hand_at(k) == old(self).bj_hand.hand_at(k - 1) && final(self).bj_hand.values_at(k) == old(self).bj_hand.values_at(k - 1),
    {
        let ghost first = old(self).bj_hand.hand_at(old(self).active())[0];
        let ghost second = old(self).bj_hand.hand_at(old(self).active())[1];
        let cur_bet = self.bj_hand.split(self.hand_idx);
        self.balance = self.balance - cur_bet;
        proof {
            lemma_bets_total_insert(old(self).bj_hand.bets@, old(self).active() + 1, cur_bet);
        }
        let ghost g1 = self.bj_hand;
        self.bj_hand.receive_card(card1, self.hand_idx);
        proof {
            assert(self.bj_hand.hand_at(self.active()) =~= seq![first, card1]);
            crate::hand::lemma_base_sum_two(first, card1);
        }
        let ghost g2 = self.bj_hand;
        self.bj_hand.compute_hand_value(self.hand_idx);
        let ghost g3 = self.bj_hand;
        self.bj_hand.receive_card(card2, self.hand_idx + 1);
        proof {
            assert(self.bj_hand.hand_at(self.active() + 1) =~= seq![second, card2]);
            crate::hand::lemma_base_sum_two(second, card2);
        }
        let ghost g4 = self.bj_hand;
        self.bj_hand.compute_hand_value(self.hand_idx + 1);
        proof {
            let a = old(self).active();
            assert forall|k: int|
                0 <= k < a implies self.bj_hand.hand_at(k) == old(self).bj_hand.hand_at(k)
                && self.bj_hand.values_at(k) == old(self).bj_hand.values_at(k) by {
                assert(g1.hand_at(k) == old(self).bj_hand.hand_at(k));
                assert(g1.values_at(k) == old(self).bj_hand.values_at(k));
                assert(g2.hand_at(k) == g1.hand_at(k));
                assert(g3.hand_at(k) == g2.hand_at(k));
                assert(g4.hand_at(k) == g3.hand_at(k));
                assert(self.bj_hand.hand_at(k) == g4.hand_at(k));
                assert(g2.values_at(k) == g1.values_at(k));
                assert(g3.values_at(k) == g2.values_at(k));
                assert(g4.values_at(k) == g3.values_at(k));
                assert(self.bj_hand.values_at(k) == g4.values_at(k));
            }
            assert forall|k: int|
                a + 2 <= k < self.bj_hand.hand@.len() implies self.bj_hand.hand_at(k) == old(
                self,
            ).bj_hand.hand_at(k - 1) && self.bj_hand.values_at(k) == old(self).bj_hand.values_at(
                k - 1,
            ) by {
                assert(g1.hand_at(k) == old(self).bj_hand.hand_at(k - 1));
                assert(g1.values_at(k) == old(self).bj_hand.values_at(k - 1));
                assert(g2.hand_at(k) == g1.hand_at(k));
                assert(g3.hand_at(k) == g2.hand_at(k));
                assert(g4.hand_at(k) == g3.hand_at(k));
                assert(self.bj_hand.hand_at(k) == g4.hand_at(k));
                assert(g2.values_at(k) == g1.values_at(k));
                assert(g3.values_at(k) == g2.values_at(k));
                assert(g4.values_at(k) == g3.values_at(k));
                assert(self.bj_hand.values_at(k) == g4.values_at(k));
            }
        }
    }

    /// For every hand with a live (nonzero) bet, the optimal final
    /// reading of that hand, paired with the hand's index, in increasing
    /// index order. Returns `None` exactly when no live bet remains.
    pub fn get_optimal_hands(&self) -> (r: Option<Vec<(usize, u8)>>)
        requires
            self.wf(),
            forall|i: int|
                0 <= i < self.bj_hand.bets@.len() && self.bj_hand.bets@[i] > 0 ==> 1 <= (
                #[trigger] self.bj_hand.values_at(i)).len() <= 2,
        ensures
            r is None <==> self.no_live_bets(),
            match r {
                None => true,
                Some(v) => {
                    &&& v@.len() >= 1
                    &&& forall|k: int|
                        0 <= k < v@.len() ==> (#[trigger] v@[k]).0 < self.bj_hand.bets@.len()
                            && self.bj_hand.bets@[v@[k].0 as int] > 0 && v@[k].1
                            == optimal_of_values(self.bj_hand.values_at(v@[k].0 as int))
                    &&& forall|i: int|
                        0 <= i < self.bj_hand.bets@.len() && self.bj_hand.bets@[i] > 0
                            ==> exists|k: int| 0 <= k < v@.len() && (#[trigger] v@[k]).0 == i
                    &&& forall|k1: int, k2: int|
                        0 <= k1 < k2 < v@.len() ==> (#[trigger] v@[k1]).0 < (#[trigger] v@[k2]).0
                },
            },
    {
        let n = self.bj_hand.bets.len();
        let mut res: Vec<(usize, u8)> = Vec::new();
        for i in 0..n
            invariant
                self.wf(),
                n == self.bj_hand.bets@.len(),
                forall|j: int|
                    0 <= j < self.bj_hand.bets@.len() && self.bj_hand.bets@[j] > 0 ==> 1 <= (
                    #[trigger] self.bj_hand.values_at(j)).len() <= 2,
                forall|k: int|
                    0 <= k < res@.len() ==> (#[trigger] res@[k]).0 < i
                        && self.bj_hand.bets@[res@[k].0 as int] > 0 && res@[k].1
                        == optimal_of_values(self.bj_hand.values_at(res@[k].0 as int)),
                forall|j: int|
                    0 <= j < i && self.bj_hand.bets@[j] > 0 ==> exists|k: int|
                        0 <= k < res@.len() && (#[trigger] res@[k]).0 == j,
                forall|j: int| 0 <= j < i && #[trigger] self.bj_hand.bets@[j] > 0 ==> res@.len() > 0,
                forall|k1: int, k2: int|
                    0 <= k1 < k2 < res@.len() ==> (#[trigger] res@[k1]).0 < (#[trigger] res@[k2]).0,
        {
            if self.bj_hand.bets[i] > 0 {
                proof {
                    assert(1 <= self.bj_hand.values_at(i as int).len() <= 2);
                }
                let o = compute_optimal_hand(&self.bj_hand.hand_values[i]);
                let ghost oldres = res@;
                res.push((i, o));
                proof {
                    assert forall|j: int|
                        0 <= j < i + 1 && self.bj_hand.bets@[j] > 0 implies exists|k: int|
                        0 <= k < res@.len() && (#[trigger] res@[k]).0 == j by {
                        if j == i {
                            assert(res@[oldres.len() as int].0 == i);
                        } else {
                            let k = choose|k: int|
                                0 <= k < oldres.len() && (#[trigger] oldres[k]).0 == j;
                            assert(res@[k].0 == j);
                        }
                    }
                }
            }
        }
        if res.len() == 0 {
            proof {
                assert forall|i: int|
                    0 <= i < self.bj_hand.bets@.len() implies self.bj_hand.bets@[i] == 0 by {
                    assert(self.bj_hand.bets@[i] > 0 ==> res@.len() > 0);
                }
                assert(self.no_live_bets());
            }
            None
        } else {
            proof {
                assert(self.bj_hand.bets@[res@[0].0 as int] > 0);
                assert(!self.no_live_bets());
            }
            Some(res)
        }
    }

    /// Whether the player's current position is a natural blackjack.
    pub fn has_blackjack(&self) -> (r: bool)
        requires
            self.wf(),
        ensures
            r == (self.hand_idx == 0 && is_natural(self.bj_hand.hand_at(0))),
    {
        self.bj_hand.is_blackjack(self.hand_idx)
    }

    /// Whether the active hand has busted.
    pub fn busted(&self) -> (r: bool)
        requires
            self.wf(),
            self.hand_idx < self.bj_hand.hand_values@.len(),
            1 <= self.bj_hand.values_at(self.active()).len() <= 2,
        ensures
            r == busted_values(self.bj_hand.values_at(self.active())),
    {
        self.bj_hand.busted(self.hand_idx)
    }

    /// Recomputes the active hand's stored candidate totals.
    pub fn compute_hand_value(&mut self)
        requires
            old(self).wf(),
            old(self).hand_idx < old(self).bj_hand.hand@.len(),
            base_sum(old(self).bj_hand.hand_at(old(self).active())) + 10 <= u8::MAX,
        ensures
            final(self).wf(),
            final(self).balance == old(self).balance,
            final(self).hand_idx == old(self).hand_idx,
            final(self).bj_hand.hand@ == old(self).bj_hand.hand@,
            final(self).bj_hand.bets@ == old(self).bj_hand.bets@,
            final(self).bj_hand.values_current(old(self).active()),
            final(self).bj_hand.hand_values@.len() == old(self).bj_hand.hand_values@.len(),
            forall|k: int|
                0 <= k < old(self).bj_hand.hand_values@.len() && k != old(self).active()
                    ==> final(self).bj_hand.values_at(k) == old(self).bj_hand.values_at(k),
    {
        self.bj_hand.compute_hand_value(self.hand_idx);
    }

    /// Returns the player's bets, one per hand.
    pub fn bets(&self) -> (r: &Vec<u64>)
        ensures
            r@ == self.bj_hand.bets@,
    {
        &self.bj_hand.bets
    }

    /// Resets the player for a new round: a single empty hand, no bets,
    /// the active-hand index back at the start. The balance is untouched:
    /// a bet already placed is sunk, and only settlement restores funds.
    pub fn reset(&mut self)
        ensures
            final(self).wf(),
            final(self).balance == old(self).balance,
            final(self).hand_idx == 0,
            final(self).bj_hand.hand@.len() == 1,
            final(self).bj_hand.hand_at(0).len() == 0,
            final(self).bj_hand.hand_values@.len() == 1,
            final(self).bj_hand.values_at(0).len() == 0,
            final(self).bj_hand.bets@.len() == 0,
    {
        self.hand_idx = 0;
        self.bj_hand.reset();
    }
}

} // verus!

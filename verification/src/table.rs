use vstd::prelude::*;

verus! {

use crate::dealers_hand::DealersBlackjackHand;
use crate::deck::Deck;
use crate::error::BlackjackGameError;
use crate::hand::optimal_of_values;
use crate::player::{bets_total, lemma_bets_total_elem_le, lemma_bets_total_nonneg, Player, PlayerAction};

/// The most money a table and its player may hold between them. Keeping
/// every balance and bet under this cap lets every settlement be computed
/// in 64-bit arithmetic without overflow.
pub const MAX_TOTAL_MONEY: u64 = u64::MAX / 8;

/// The optimal final reading of the player's hand `i`, from its stored
/// candidate totals.
pub open spec fn player_optimal(p: Player, i: int) -> int {
    optimal_of_values(p.bj_hand.values_at(i))
}

/// Hand `i` wins against a dealer total of `d`: its bet is live and
/// either the dealer busted or the hand reads higher.
pub open spec fn hand_won(p: Player, i: int, d: int) -> bool {
    p.bj_hand.bets@[i] > 0 && (d > 21 || player_optimal(p, i) > d)
}

/// Hand `i` pushes against a dealer total of `d`: its bet is live and the
/// two readings are equal, the dealer not having busted.
pub open spec fn hand_pushed(p: Player, i: int, d: int) -> bool {
    p.bj_hand.bets@[i] > 0 && d <= 21 && player_optimal(p, i) == d
}

/// Hand `i` loses against a dealer total of `d`: its bet is live, the
/// dealer did not bust, and the hand reads lower.
pub open spec fn hand_lost(p: Player, i: int, d: int) -> bool {
    p.bj_hand.bets@[i] > 0 && d <= 21 && player_optimal(p, i) < d
}

/// The bets won over the player's first `n` hands against dealer total
/// `d`: the bank owes the player this much on top of the refunded bets.
pub open spec fn spec_winnings(p: Player, d: int, n: int) -> int
    decreases n,
{
    if n <= 0 {
        0
    } else {
        spec_winnings(p, d, n - 1) + if hand_won(p, n - 1, d) {
            p.bj_hand.bets@[n - 1] as int
        } else {
            0
        }
    }
}

/// The bets pushed over the player's first `n` hands against dealer total
/// `d`: refunded to the player without winnings.
pub open spec fn spec_refunds(p: Player, d: int, n: int) -> int
    decreases n,
{
    if n <= 0 {
        0
    } else {
        spec_refunds(p, d, n - 1) + if hand_pushed(p, n - 1, d) {
            p.bj_hand.bets@[n - 1] as int
        } else {
            0
        }
    }
}

/// The bets lost over the player's first `n` hands against dealer total
/// `d`: credited to the bank.
pub open spec fn spec_forfeits(p: Player, d: int, n: int) -> int
    decreases n,
{
    if n <= 0 {
        0
    } else {
        spec_forfeits(p, d, n - 1) + if hand_lost(p, n - 1, d) {
            p.bj_hand.bets@[n - 1] as int
        } else {
            0
        }
    }
}

/// Taking one more bet adds it to the total of the prefix.
pub proof fn lemma_bets_total_take_step(s: Seq<u64>, n: int)
    requires
        1 <= n <= s.len(),
    ensures
        bets_total(s.take(n)) == bets_total(s.take(n - 1)) + s[n - 1],
{
    assert(s.take(n).drop_last() =~= s.take(n - 1));
    assert(s.take(n).last() == s[n - 1]);
}

/// The total of a prefix of bets never exceeds the total of all bets.
pub proof fn lemma_bets_total_take_le(s: Seq<u64>, n: int)
    requires
        0 <= n <= s.len(),
    ensures
        bets_total(s.take(n)) <= bets_total(s),
    decreases s.len() - n,
{
    if n == s.len() {
        assert(s.take(n) =~= s);
    } else {
        lemma_bets_total_take_step(s, n + 1);
        lemma_bets_total_take_le(s, n + 1);
    }
}

/// The settlement sums are non-negative, and every live bet is won,
/// pushed or lost — exactly one of the three — so together the sums make
/// up exactly the total of the bets settled so far.
pub proof fn lemma_settlement_bounds(p: Player, d: int, n: int)
    requires
        0 <= n <= p.bj_hand.bets@.len(),
    ensures
        0 <= spec_winnings(p, d, n),
        0 <= spec_refunds(p, d, n),
        0 <= spec_forfeits(p, d, n),
        spec_winnings(p, d, n) + spec_refunds(p, d, n) + spec_forfeits(p, d, n) == bets_total(
            p.bj_hand.bets@.take(n),
        ),
    decreases n,
{
    if n == 0 {
        assert(p.bj_hand.bets@.take(0) =~= Seq::<u64>::empty());
    } else {
        lemma_settlement_bounds(p, d, n - 1);
        lemma_bets_total_take_step(p.bj_hand.bets@, n);
    }
}

/// How one of the player's hands settled against the dealer.
#[derive(Clone, Copy, PartialEq, Eq, Structural, Debug)]
pub enum HandOutcome {
    /// The dealer busted or the hand read higher: the bet comes back
    /// with equal winnings from the bank.
    Won,
    /// The hand tied the dealer: the bet comes back, nothing more.
    Pushed,
    /// The hand read lower, had busted, or was already forfeited: the
    /// bet goes to the bank.
    Lost,
}

/// How hand `i` settles against dealer total `d`. A hand whose bet was
/// already forfeited counts as lost.
pub open spec fn spec_outcome(p: Player, i: int, d: int) -> HandOutcome {
    if hand_won(p, i, d) {
        HandOutcome::Won
    } else if hand_pushed(p, i, d) {
        HandOutcome::Pushed
    } else {
        HandOutcome::Lost
    }
}

/// The result of settling a round, for the caller to render: the
/// dealer's final total, each hand's outcome, and what was paid out.
#[derive(Debug)]
pub struct RoundSummary {
    /// The dealer's optimal final total after drawing to completion.
    pub dealer_total: u8,
    /// The outcome of each of the player's hands, in hand order.
    pub outcomes: Vec<HandOutcome>,
    /// The total of the won bets: paid from the bank on top of the
    /// returned bets themselves.
    pub winnings: u64,
    /// The total of the pushed bets: returned without winnings.
    pub refunded: u64,
}

/// What applying a player action did, for the caller to render.
#[derive(Clone, Copy, PartialEq, Eq, Structural, Debug)]
pub enum ActionOutcome {
    /// The active hand stood.
    Stood,
    /// The active hand was dealt a card; `busted` says whether it busted
    /// and forfeited its bet.
    Hit { busted: bool },
    /// The hand doubled its bet and was dealt its one final card;
    /// `busted` says whether it busted and forfeited the doubled bet.
    Doubled { busted: bool },
    /// The active hand was split into two.
    SplitHand,
}

/// How the initial deal resolved, for the caller to render.
#[derive(Clone, Copy, PartialEq, Eq, Structural, Debug)]
pub enum DealOutcome {
    /// The dealer was dealt a natural blackjack and the round resolved
    /// immediately: a push if the player also had a natural (bet
    /// refunded), otherwise the bet was forfeited to the bank.
    DealerBlackjack { push: bool },
    /// The player alone was dealt a natural blackjack and was paid 3:2
    /// immediately; `winnings` is the premium paid from the bank on top
    /// of the refunded bet.
    PlayerBlackjack { winnings: u64 },
    /// Neither side had a natural: the action phase begins, the dealer's
    /// hole card hidden.
    InPlay,
}

/// A blackjack table: the shoe, the bank, the dealer's hand, and the
/// number of passes used when the shoe is shuffled.
#[derive(Debug)]
pub struct BlackjackTable {
    pub deck: Deck,
    pub balance: u64,
    pub dealers_hand: DealersBlackjackHand,
    pub n_shuffles: u32,
}

impl BlackjackTable {
    /// Well-formedness: a well-formed shoe and dealer hand, and at least
    /// one shuffle pass so that reshuffling can always be honoured.
    pub open spec fn wf(self) -> bool {
        &&& self.deck.wf()
        &&& self.dealers_hand.wf()
        &&& self.n_shuffles >= 1
    }

    /// All the money in play: the bank plus everything the player holds
    /// or has bet. Settlement moves money between the three and never
    /// creates any, so this stays put all round.
    pub open spec fn spec_table_money(self, p: Player) -> int {
        self.balance + p.spec_committed()
    }

    /// Creates a table with a bank of `starting_balance`, a fresh
    /// (unshuffled, reshuffle-flagged) shoe of `n_decks` decks, an empty
    /// dealer hand and `n_shuffles` passes per shuffle. Fails with
    /// `InvalidConfig` exactly when zero decks or zero passes are
    /// requested.
    pub fn new(starting_balance: u64, n_decks: usize, n_shuffles: u32) -> (r: Result<
        BlackjackTable,
        BlackjackGameError,
    >)
        requires
            n_decks <= usize::MAX / 208,
        ensures
            match r {
                Ok(t) => {
                    &&& n_decks >= 1 && n_shuffles >= 1
                    &&& t.wf()
                    &&& t.balance == starting_balance
                    &&& t.n_shuffles == n_shuffles
                    &&& t.deck.cards@.len() == 52 * n_decks
                    &&& t.deck.shuffle_flag
                    &&& t.dealers_hand.hand@.len() == 0
                    &&& t.dealers_hand.hand_value@.len() == 0
                },
                Err(e) => {
                    &&& e == BlackjackGameError::InvalidConfig
                    &&& (n_decks == 0 || n_shuffles == 0)
                },
            },
            r is Ok <==> (n_decks >= 1 && n_shuffles >= 1),
    {
        if n_shuffles == 0 {
            return Err(BlackjackGameError::InvalidConfig);
        }
        let deck = match Deck::new(n_decks) {
            Ok(d) => d,
            Err(e) => {
                return Err(e);
            },
        };
        Ok(
            BlackjackTable {
                deck,
                balance: starting_balance,
                dealers_hand: DealersBlackjackHand::new(),
                n_shuffles,
            },
        )
    }

    /// Creates a table around an existing shoe, typically one built with
    /// `Deck::from_cards` for a known deal order. Fails with
    /// `InvalidConfig` exactly when zero shuffle passes are requested.
    pub fn from_deck(starting_balance: u64, deck: Deck, n_shuffles: u32) -> (r: Result<
        BlackjackTable,
        BlackjackGameError,
    >)
        requires
            deck.wf(),
        ensures
            match r {
                Ok(t) => {
                    &&& n_shuffles >= 1
                    &&& t.wf()
                    &&& t.balance == starting_balance
                    &&& t.n_shuffles == n_shuffles
                    &&& t.deck == deck
                    &&& t.dealers_hand.hand@.len() == 0
                    &&& t.dealers_hand.hand_value@.len() == 0
                },
                Err(e) => {
                    &&& e == BlackjackGameError::InvalidConfig
                    &&& n_shuffles == 0
                },
            },
            r is Ok <==> n_shuffles >= 1,
    {
        if n_shuffles == 0 {
            return Err(BlackjackGameError::InvalidConfig);
        }
        Ok(
            BlackjackTable {
                deck,
                balance: starting_balance,
                dealers_hand: DealersBlackjackHand::new(),
                n_shuffles,
            },
        )
    }

    /// Places the player's bet for a round. Fails with `InvalidBet` on a
    /// zero bet, with `InsufficientBankroll` when the bank could not pay
    /// the 3:2 natural-blackjack premium on it, and with
    /// `InsufficientFunds` when it exceeds the player's balance — in that
    /// order, changing nothing. Otherwise the bet is deducted from the
    /// player's balance and recorded.
    pub fn place_bet(&self, player: &mut Player, bet: u64) -> (r: Result<
        (),
        BlackjackGameError,
    >)
        requires
            old(player).wf(),
            old(player).bj_hand.bets@.len() == 0,
            old(player).bj_hand.hand@.len() == 1,
            old(player).hand_idx == 0,
        ensures
            final(player).wf(),
            final(player).spec_committed() == old(player).spec_committed(),
            final(player).hand_idx == 0,
            final(player).bj_hand.hand@ == old(player).bj_hand.hand@,
            final(player).bj_hand.hand_values@ == old(player).bj_hand.hand_values@,
            match r {
                Ok(()) => {
                    &&& 0 < bet <= old(player).balance
                    &&& 3 * bet <= 2 * self.balance
                    &&& final(player).balance == old(player).balance - bet
                    &&& final(player).bj_hand.bets@ == seq![bet]
                },
                Err(e) => {
                    &&& *final(player) == *old(player)
                    &&& (if bet == 0 {
                        e == BlackjackGameError::InvalidBet
                    } else if 3 * bet > 2 * self.balance {
                        e == BlackjackGameError::InsufficientBankroll
                    } else {
                        e == BlackjackGameError::InsufficientFunds && bet > old(player).balance
                    })
                },
            },
            r is Ok <==> (0 < bet && 3 * bet <= 2 * self.balance && bet <= old(player).balance),
    {
        if bet == 0 {
            return Err(BlackjackGameError::InvalidBet);
        }
        if (bet as u128) * 3 > (self.balance as u128) * 2 {
            return Err(BlackjackGameError::InsufficientBankroll);
        }
        player.place_bet(bet)
    }

    /// Deals one card to the player's active hand and recomputes its
    /// value. If the hand busts, the bet is forfeited to the bank and the
    /// active-hand index advances; the returned flag says whether that
    /// happened. Fails with `Exhausted` exactly when the shoe is empty,
    /// changing nothing.
    pub fn hit(&mut self, player: &mut Player) -> (r: Result<bool, BlackjackGameError>)
        requires
            old(self).wf(),
            old(player).wf(),
            old(player).hand_idx < old(player).bj_hand.bets@.len(),
            old(player).bj_hand.bets@.len() == old(player).bj_hand.hand@.len(),
            old(player).bj_hand.values_current(old(player).active()),
            !crate::players_hand::busted_values(
                old(player).bj_hand.values_at(old(player).active()),
            ),
            old(self).spec_table_money(*old(player)) <= MAX_TOTAL_MONEY,
        ensures
            final(self).wf(),
            final(player).wf(),
            final(self).deck.cards@ == old(self).deck.cards@,
            final(self).deck.n_decks == old(self).deck.n_decks,
            final(self).deck.shuffle_flag_pos == old(self).deck.shuffle_flag_pos,
            final(self).deck.shuffle_flag == (old(self).deck.shuffle_flag || (old(self).deck.deck_pos < final(self).deck.shuffle_flag_pos <= final(self).deck.deck_pos)),
            final(self).dealers_hand == old(self).dealers_hand,
            final(self).n_shuffles == old(self).n_shuffles,
            final(self).spec_table_money(*final(player)) == old(self).spec_table_money(
                *old(player),
            ),
            r is Ok <==> old(self).deck.deck_pos < old(self).deck.cards@.len(),
            match r {
                Err(e) => {
                    &&& e == BlackjackGameError::Exhausted
                    &&& *final(self) == *old(self)
                    &&& *final(player) == *old(player)
                },
                Ok(busted) => {
                    &&& final(self).deck.deck_pos == old(self).deck.deck_pos + 1
                    &&& final(player).bj_hand.hand_at(old(player).active()) == old(
                        player,
                    ).bj_hand.hand_at(old(player).active()).push(
                        old(self).deck.cards@[old(self).deck.deck_pos as int],
                    )
                    &&& final(player).bj_hand.values_current(old(player).active())
                    &&& busted == crate::hand::is_bust(
                        final(player).bj_hand.hand_at(old(player).active()),
                    )
                    &&& final(player).bj_hand.hand@.len() == old(player).bj_hand.hand@.len()
                    &&& final(player).bj_hand.hand_values@.len() == old(
                        player,
                    ).bj_hand.hand_values@.len()
                    &&& forall|k: int|
                        0 <= k < old(player).bj_hand.hand@.len() && k != old(player).active()
                            ==> final(player).bj_hand.hand_at(k) == old(player).bj_hand.hand_at(k)
                            && final(player).bj_hand.values_at(k) == old(player).bj_hand.values_at(
                            k,
                        )
                    &&& final(player).balance == old(player).balance
                    &&& (if busted {
                        &&& final(player).hand_idx == old(player).hand_idx + 1
                        &&& final(player).bj_hand.bets@ == old(player).bj_hand.bets@.update(
                            old(player).active(),
                            0u64,
                        )
                        &&& final(self).balance == old(self).balance + old(
                            player,
                        ).bj_hand.bets@[old(player).active()]
                    } else {
                        &&& final(player).hand_idx == old(player).hand_idx
                        &&& final(player).bj_hand.bets@ == old(player).bj_hand.bets@
                        &&& final(self).balance == old(self).balance
                    })
                },
            },
    {
        let card = match self.deck.get_next_card() {
            Ok(c) => c,
            Err(e) => {
                return Err(e);
            },
        };
        proof {
            crate::hand::lemma_busted_values_match(
                old(player).bj_hand.values_at(old(player).active()),
                old(player).bj_hand.hand_at(old(player).active()),
            );
            crate::hand::lemma_base_sum_push(
                old(player).bj_hand.hand_at(old(player).active()),
                card,
            );
        }
        player.receive_card(card);
        let ghost after_receive = *player;
        player.compute_hand_value();
        proof {
            crate::hand::lemma_busted_values_match(
                player.bj_hand.values_at(player.active()),
                player.bj_hand.hand_at(player.active()),
            );
            assert forall|k: int|
                0 <= k < old(player).bj_hand.hand@.len() && k != old(
                    player,
                ).active() implies player.bj_hand.values_at(k) == old(player).bj_hand.values_at(
                k,
            ) by {
                assert(after_receive.bj_hand.values_at(k) == old(player).bj_hand.values_at(k));
                assert(player.bj_hand.values_at(k) == after_receive.bj_hand.values_at(k));
            }
        }
        if player.busted() {
            proof {
                lemma_bets_total_elem_le(player.bj_hand.bets@, player.active());
                lemma_bets_total_nonneg(player.bj_hand.bets@);
            }
            let bet = player.lose_bet();
            self.balance = self.balance + bet;
            Ok(true)
        } else {
            Ok(false)
        }
    }

    /// Doubles down on the player's (first and only) hand: the bet is
    /// doubled, exactly one more card is dealt, and the hand is finished
    /// — stood if it did not bust, forfeited (the doubled bet credited to
    /// the bank) if it did; the returned flag says which. Fails with
    /// `Exhausted` exactly when the shoe is empty, changing nothing.
    pub fn double_down(&mut self, player: &mut Player) -> (r: Result<bool, BlackjackGameError>)
        requires
            old(self).wf(),
            old(player).wf(),
            old(player).hand_idx < old(player).bj_hand.bets@.len(),
            old(player).bj_hand.bets@.len() == old(player).bj_hand.hand@.len(),
            old(player).bj_hand.values_current(old(player).active()),
            !crate::players_hand::busted_values(
                old(player).bj_hand.values_at(old(player).active()),
            ),
            old(player).spec_double_allowed(),
            old(self).spec_table_money(*old(player)) <= MAX_TOTAL_MONEY,
        ensures
            final(self).wf(),
            final(player).wf(),
            final(self).deck.cards@ == old(self).deck.cards@,
            final(self).deck.n_decks == old(self).deck.n_decks,
            final(self).deck.shuffle_flag_pos == old(self).deck.shuffle_flag_pos,
            final(self).deck.shuffle_flag == (old(self).deck.shuffle_flag || (old(self).deck.deck_pos < final(self).deck.shuffle_flag_pos <= final(self).deck.deck_pos)),
            final(self).dealers_hand == old(self).dealers_hand,
            final(self).n_shuffles == old(self).n_shuffles,
            final(self).spec_table_money(*final(player)) == old(self).spec_table_money(
                *old(player),
            ),
            r is Ok <==> old(self).deck.deck_pos < old(self).deck.cards@.len(),
            match r {
                Err(e) => {
                    &&& e == BlackjackGameError::Exhausted
                    &&& *final(self) == *old(self)
                    &&& *final(player) == *old(player)
                },
                Ok(busted) => {
                    &&& final(self).deck.deck_pos == old(self).deck.deck_pos + 1
                    &&& final(player).bj_hand.hand@.len() == old(player).bj_hand.hand@.len()
                    &&& final(player).bj_hand.hand_at(0) == old(player).bj_hand.hand_at(0).push(
                        old(self).deck.cards@[old(self).deck.deck_pos as int],
                    )
                    &&& final(player).bj_hand.values_current(0)
                    &&& busted == crate::hand::is_bust(final(player).bj_hand.hand_at(0))
                    &&& final(player).hand_idx == old(player).hand_idx + 1
                    &&& final(player).balance == old(player).balance - old(
                        player,
                    ).bj_hand.bets@[0]
                    &&& (if busted {
                        &&& final(player).bj_hand.bets@ == old(player).bj_hand.bets@.update(
                            0,
                            0u64,
                        )
                        &&& final(self).balance == old(self).balance + 2 * old(
                            player,
                        ).bj_hand.bets@[0]
                    } else {
                        &&& final(player).bj_hand.bets@ == old(player).bj_hand.bets@.update(
                            0,
                            (2 * old(player).bj_hand.bets@[0]) as u64,
                        )
                        &&& final(self).balance == old(self).balance
                    })
                },
            },
    {
        let card = match self.deck.get_next_card() {
            Ok(c) => c,
            Err(e) => {
                return Err(e);
            },
        };
        proof {
            lemma_bets_total_elem_le(old(player).bj_hand.bets@, old(player).active());
            lemma_bets_total_nonneg(old(player).bj_hand.bets@);
        }
        player.double_down();
        proof {
            crate::hand::lemma_busted_values_match(
                old(player).bj_hand.values_at(0),
                old(player).bj_hand.hand_at(0),
            );
            crate::hand::lemma_base_sum_push(old(player).bj_hand.hand_at(0), card);
        }
        player.receive_card(card);
        player.compute_hand_value();
        proof {
            crate::hand::lemma_busted_values_match(
                player.bj_hand.values_at(0),
                player.bj_hand.hand_at(0),
            );
        }
        if !player.busted() {
            player.stand();
            Ok(false)
        } else {
            proof {
                lemma_bets_total_elem_le(player.bj_hand.bets@, player.active());
                lemma_bets_total_nonneg(player.bj_hand.bets@);
            }
            let bet = player.lose_bet();
            self.balance = self.balance + bet;
            Ok(true)
        }
    }

    /// Splits the player's active hand: the duplicated bet is deducted
    /// from the player's balance, and one card is dealt to each of the
    /// two resulting hands, whose values are recomputed. Fails with
    /// `Exhausted` exactly when fewer than two cards remain in the shoe,
    /// changing nothing.
    pub fn split(&mut self, player: &mut Player) -> (r: Result<(), BlackjackGameError>)
        requires
            old(self).wf(),
            old(player).wf(),
            old(player).hand_idx < old(player).bj_hand.bets@.len(),
            old(player).bj_hand.bets@.len() == old(player).bj_hand.hand@.len(),
            old(player).spec_split_allowed(),
        ensures
            final(self).wf(),
            final(player).wf(),
            final(self).deck.cards@ == old(self).deck.cards@,
            final(self).deck.n_decks == old(self).deck.n_decks,
            final(self).deck.shuffle_flag_pos == old(self).deck.shuffle_flag_pos,
            final(self).deck.shuffle_flag == (old(self).deck.shuffle_flag || (old(self).deck.deck_pos < final(self).deck.shuffle_flag_pos <= final(self).deck.deck_pos)),
            final(self).dealers_hand == old(self).dealers_hand,
            final(self).n_shuffles == old(self).n_shuffles,
            final(self).balance == old(self).balance,
            final(self).spec_table_money(*final(player)) == old(self).spec_table_money(
                *old(player),
            ),
            r is Ok <==> old(self).deck.deck_pos + 2 <= old(self).deck.cards@.len(),
            match r {
                Err(e) => {
                    &&& e == BlackjackGameError::Exhausted
                    &&& *final(self) == *old(self)
                    &&& *final(player) == *old(player)
                },
                Ok(()) => {
                    &&& final(self).deck.deck_pos == old(self).deck.deck_pos + 2
                    &&& final(player).hand_idx == old(player).hand_idx
                    &&& final(player).balance == old(player).balance - old(
                        player,
                    ).bj_hand.bets@[old(player).active()]
                    &&& final(player).bj_hand.hand@.len() == old(player).bj_hand.hand@.len() + 1
                    &&& final(player).bj_hand.bets@ == old(player).bj_hand.bets@.insert(
                        old(player).active() + 1,
                        old(player).bj_hand.bets@[old(player).active()],
                    )
                    &&& final(player).bj_hand.hand_at(old(player).active()) == seq![
                        old(player).bj_hand.hand_at(old(player).active())[0],
                        old(self).deck.cards@[old(self).deck.deck_pos as int],
                    ]
                    &&& final(player).bj_hand.hand_at(old(player).active() + 1) == seq![
                        old(player).bj_hand.hand_at(old(player).active())[1],
                        old(self).deck.cards@[old(self).deck.deck_pos + 1],
                    ]
                    &&& final(player).bj_hand.values_current(old(player).active())
                    &&& final(player).bj_hand.values_current(old(player).active() + 1)
                    &&& forall|k: int|
                        0 <= k < old(player).active() ==> final(player).bj_hand.hand_at(k) == old(
                            player,
                        ).bj_hand.hand_at(k) && final(player).bj_hand.values_at(k) == old(
                            player,
                        ).bj_hand.values_at(k)
                    &&& forall|k: int|
                        old(player).active() + 2 <= k < final(player).bj_hand.hand@.len()
                            ==> final(player).bj_hand.hand_at(k) == old(player).bj_hand.hand_at(
                            k - 1,
                        ) && final(player).bj_hand.values_at(k) == old(player).bj_hand.values_at(
                            k - 1,
                        )
                },
            },
    {
        if self.deck.cards.len() - self.deck.deck_pos < 2 {
            return Err(BlackjackGameError::Exhausted);
        }
        let card1 = match self.deck.get_next_card() {
            Ok(c) => c,
            Err(e) => {
                return Err(e);
            },
        };
        let card2 = match self.deck.get_next_card() {
            Ok(c) => c,
            Err(e) => {
                return Err(e);
            },
        };
        player.split(card1, card2);
        Ok(())
    }

    /// Stands the player's active hand: the active-hand index advances by
    /// one and nothing else changes.
    pub fn stand(&self, player: &mut Player)
        requires
            old(player).wf(),
            old(player).hand_idx < old(player).bj_hand.bets@.len(),
        ensures
            final(player).wf(),
            final(player).hand_idx == old(player).hand_idx + 1,
            final(player).balance == old(player).balance,
            final(player).bj_hand == old(player).bj_hand,
    {
        player.stand();
    }

    /// Applies the chosen action to the player's active hand. Standing
    /// and hitting are always legal; splitting and doubling down fail
    /// with `InvalidAction`, changing nothing, exactly when their
    /// eligibility conditions do not hold. Dealing may fail with
    /// `Exhausted` as in `hit`, `double_down` and `split`.
    pub fn play_option(&mut self, player: &mut Player, action: PlayerAction) -> (r: Result<
        ActionOutcome,
        BlackjackGameError,
    >)
        requires
            old(self).wf(),
            old(player).wf(),
            old(player).hand_idx < old(player).bj_hand.bets@.len(),
            old(player).bj_hand.bets@.len() == old(player).bj_hand.hand@.len(),
            old(player).bj_hand.values_current(old(player).active()),
            !crate::players_hand::busted_values(
                old(player).bj_hand.values_at(old(player).active()),
            ),
            old(self).spec_table_money(*old(player)) <= MAX_TOTAL_MONEY,
        ensures
            final(self).wf(),
            final(player).wf(),
            final(self).deck.cards@ == old(self).deck.cards@,
            final(self).deck.n_decks == old(self).deck.n_decks,
            final(self).deck.shuffle_flag_pos == old(self).deck.shuffle_flag_pos,
            final(self).deck.shuffle_flag == (old(self).deck.shuffle_flag || (old(self).deck.deck_pos < final(self).deck.shuffle_flag_pos <= final(self).deck.deck_pos)),
            final(self).dealers_hand == old(self).dealers_hand,
            final(self).n_shuffles == old(self).n_shuffles,
            final(self).spec_table_money(*final(player)) == old(self).spec_table_money(
                *old(player),
            ),
            r == Err::<ActionOutcome, _>(BlackjackGameError::InvalidAction) <==> ((action
                == PlayerAction::Split && !old(player).spec_split_allowed()) || (action
                == PlayerAction::DoubleDown && !old(player).spec_double_allowed())),
            r is Err && r != Err::<ActionOutcome, _>(BlackjackGameError::Exhausted) ==> (
            *final(self) == *old(self) && *final(player) == *old(player)),
            r == Err::<ActionOutcome, _>(BlackjackGameError::Exhausted) ==> (*final(self) == *old(self) && *final(player) == *old(player)),
            action == PlayerAction::Stand ==> {
                &&& r == Ok::<_, BlackjackGameError>(ActionOutcome::Stood)
                &&& final(player).hand_idx == old(player).hand_idx + 1
                &&& final(player).balance == old(player).balance
                &&& final(player).bj_hand == old(player).bj_hand
                &&& *final(self) == *old(self)
            },
            action == PlayerAction::Hit ==> {
                &&& (r is Ok <==> old(self).deck.deck_pos < old(self).deck.cards@.len())
                &&& (r is Err ==> r == Err::<ActionOutcome, _>(BlackjackGameError::Exhausted))
                &&& match r {
                    Err(_) => true,
                    Ok(o) => {
                        &&& o matches ActionOutcome::Hit { busted }
                        &&& final(self).deck.deck_pos == old(self).deck.deck_pos + 1
                        &&& final(player).bj_hand.hand_at(old(player).active()) == old(
                            player,
                        ).bj_hand.hand_at(old(player).active()).push(
                            old(self).deck.cards@[old(self).deck.deck_pos as int],
                        )
                        &&& final(player).bj_hand.values_current(old(player).active())
                        &&& final(player).bj_hand.hand@.len() == old(player).bj_hand.hand@.len()
                        &&& forall|k: int|
                            0 <= k < old(player).bj_hand.hand@.len() && k != old(player).active()
                                ==> final(player).bj_hand.hand_at(k) == old(player).bj_hand.hand_at(
                                k,
                            ) && final(player).bj_hand.values_at(k) == old(
                                player,
                            ).bj_hand.values_at(k)
                        &&& (o matches ActionOutcome::Hit { busted } ==> busted
                            == crate::hand::is_bust(
                            final(player).bj_hand.hand_at(old(player).active()),
                        ) && (if busted {
                            &&& final(player).hand_idx == old(player).hand_idx + 1
                            &&& final(player).bj_hand.bets@ == old(player).bj_hand.bets@.update(
                                old(player).active(),
                                0u64,
                            )
                            &&& final(self).balance == old(self).balance + old(
                                player,
                            ).bj_hand.bets@[old(player).active()]
                        } else {
                            &&& final(player).hand_idx == old(player).hand_idx
                            &&& final(player).bj_hand.bets@ == old(player).bj_hand.bets@
                            &&& final(self).balance == old(self).balance
                        }))
                        &&& final(player).balance == old(player).balance
                    },
                }
            },
            action == PlayerAction::DoubleDown && old(player).spec_double_allowed() ==> {
                &&& (r is Ok <==> old(self).deck.deck_pos < old(self).deck.cards@.len())
                &&& match r {
                    Err(_) => true,
                    Ok(o) => {
                        &&& o matches ActionOutcome::Doubled { busted }
                        &&& final(self).deck.deck_pos == old(self).deck.deck_pos + 1
                        &&& final(player).bj_hand.hand@.len() == old(player).bj_hand.hand@.len()
                        &&& final(player).bj_hand.hand_at(0) == old(player).bj_hand.hand_at(
                            0,
                        ).push(old(self).deck.cards@[old(self).deck.deck_pos as int])
                        &&& final(player).bj_hand.values_current(0)
                        &&& final(player).hand_idx == old(player).hand_idx + 1
                        &&& final(player).balance == old(player).balance - old(
                            player,
                        ).bj_hand.bets@[0]
                        &&& (o matches ActionOutcome::Doubled { busted } ==> busted
                            == crate::hand::is_bust(final(player).bj_hand.hand_at(0)) && (if busted {
                            &&& final(player).bj_hand.bets@ == old(player).bj_hand.bets@.update(
                                0,
                                0u64,
                            )
                            &&& final(self).balance == old(self).balance + 2 * old(
                                player,
                            ).bj_hand.bets@[0]
                        } else {
                            &&& final(player).bj_hand.bets@ == old(player).bj_hand.bets@.update(
                                0,
                                (2 * old(player).bj_hand.bets@[0]) as u64,
                            )
                            &&& final(self).balance == old(self).balance
                        }))
                    },
                }
            },
            action == PlayerAction::Split && old(player).spec_split_allowed() ==> {
                &&& (r is Ok <==> old(self).deck.deck_pos + 2 <= old(self).deck.cards@.len())
                &&& match r {
                    Err(_) => true,
                    Ok(o) => {
                        &&& o == ActionOutcome::SplitHand
                        &&& final(self).deck.deck_pos == old(self).deck.deck_pos + 2
                        &&& final(self).balance == old(self).balance
                        &&& final(player).hand_idx == old(player).hand_idx
                        &&& final(player).balance == old(player).balance - old(
                            player,
                        ).bj_hand.bets@[old(player).active()]
                        &&& final(player).bj_hand.hand@.len() == old(player).bj_hand.hand@.len()
                            + 1
                        &&& final(player).bj_hand.bets@ == old(player).bj_hand.bets@.insert(
                            old(player).active() + 1,
                            old(player).bj_hand.bets@[old(player).active()],
                        )
                        &&& final(player).bj_hand.hand_at(old(player).active()) == seq![
                            old(player).bj_hand.hand_at(old(player).active())[0],
                            old(self).deck.cards@[old(self).deck.deck_pos as int],
                        ]
                        &&& final(player).bj_hand.hand_at(old(player).active() + 1) == seq![
                            old(player).bj_hand.hand_at(old(player).active())[1],
                            old(self).deck.cards@[old(self).deck.deck_pos + 1],
                        ]
                        &&& final(player).bj_hand.values_current(old(player).active())
                        &&& final(player).bj_hand.values_current(old(player).active() + 1)
                    },
                }
            },
    {
        match action {
            PlayerAction::Stand => {
                self.stand(player);
                Ok(ActionOutcome::Stood)
            },
            PlayerAction::Hit => {
                match self.hit(player) {
                    Ok(busted) => Ok(ActionOutcome::Hit { busted }),
                    Err(e) => Err(e),
                }
            },
            PlayerAction::DoubleDown => {
                let eligible = player.bj_hand.can_double_down(player.hand_idx) && player.balance
                    >= player.bj_hand.bets[player.hand_idx] && player.bj_hand.hand.len() == 1;
                if !eligible {
                    return Err(BlackjackGameError::InvalidAction);
                }
                match self.double_down(player) {
                    Ok(busted) => Ok(ActionOutcome::Doubled { busted }),
                    Err(e) => Err(e),
                }
            },
            PlayerAction::Split => {
                let eligible = player.bj_hand.can_split(player.hand_idx) && player.balance
                    >= player.bj_hand.bets[player.hand_idx] && player.bj_hand.hand.len() < 4;
                if !eligible {
                    return Err(BlackjackGameError::InvalidAction);
                }
                match self.split(player) {
                    Ok(()) => Ok(ActionOutcome::SplitHand),
                    Err(e) => Err(e),
                }
            },
        }
    }

    /// Deals the round's opening cards — two to the player and two to the
    /// dealer, alternating — shuffling the shoe first when its reshuffle
    /// flag asks for it, and resolves naturals: a dealer natural ends the
    /// round at once (push or loss of the single bet), a player-only
    /// natural is paid 3:2 from the bank immediately, and otherwise the
    /// action phase begins. Never fails: the reshuffle policy keeps
    /// enough cards in the shoe.
    pub fn deal_hand(&mut self, player: &mut Player) -> (r: Result<
        DealOutcome,
        BlackjackGameError,
    >)
        requires
            old(self).wf(),
            old(player).wf(),
            old(player).bj_hand.bets@.len() == 1,
            old(player).bj_hand.hand@.len() == 1,
            old(player).bj_hand.hand_at(0).len() == 0,
            old(player).hand_idx == 0,
            old(self).dealers_hand.hand@.len() == 0,
            3 * old(player).bj_hand.bets@[0] <= 2 * old(self).balance,
            old(self).spec_table_money(*old(player)) <= MAX_TOTAL_MONEY,
        ensures
            final(self).wf(),
            final(player).wf(),
            final(self).n_shuffles == old(self).n_shuffles,
            final(self).spec_table_money(*final(player)) == old(self).spec_table_money(
                *old(player),
            ),
            r is Ok,
            final(self).deck.cards@.len() == old(self).deck.cards@.len(),
            final(self).deck.cards@.to_multiset() == old(self).deck.cards@.to_multiset(),
            !old(self).deck.shuffle_flag ==> final(self).deck.cards@ == old(self).deck.cards@,
            final(self).deck.deck_pos == (if old(self).deck.shuffle_flag {
                4int
            } else {
                old(self).deck.deck_pos + 4
            }),
            old(self).deck.shuffle_flag ==> !final(self).deck.shuffle_flag,
            final(player).hand_idx == 0,
            final(player).balance >= old(player).balance,
            ({
                let cards = final(self).deck.cards@;
                let start = final(self).deck.deck_pos - 4;
                let pcards = seq![cards[start], cards[start + 2]];
                let dcards = seq![cards[start + 1], cards[start + 3]];
                let bet = old(player).bj_hand.bets@[0];
                &&& final(player).bj_hand.hand@.len() == 1
                &&& final(player).bj_hand.hand_at(0) == pcards
                &&& final(player).bj_hand.values_current(0)
                &&& final(self).dealers_hand.hand@ == dcards
                &&& final(self).dealers_hand.values_current()
                &&& match r {
                    Err(_) => false,
                    Ok(o) => match o {
                        DealOutcome::DealerBlackjack { push } => {
                            &&& crate::hand::is_natural(dcards)
                            &&& push == crate::hand::is_natural(pcards)
                            &&& final(player).bj_hand.bets@.len() == 0
                            &&& (if push {
                                &&& final(player).balance == old(player).balance + bet
                                &&& final(self).balance == old(self).balance
                            } else {
                                &&& final(player).balance == old(player).balance
                                &&& final(self).balance == old(self).balance + bet
                            })
                        },
                        DealOutcome::PlayerBlackjack { winnings } => {
                            &&& !crate::hand::is_natural(dcards)
                            &&& crate::hand::is_natural(pcards)
                            &&& winnings == (3 * bet) / 2
                            &&& final(player).bj_hand.bets@.len() == 0
                            &&& final(player).balance == old(player).balance + bet + winnings
                            &&& final(self).balance == old(self).balance - winnings
                        },
                        DealOutcome::InPlay => {
                            &&& !crate::hand::is_natural(dcards)
                            &&& !crate::hand::is_natural(pcards)
                            &&& final(player).bj_hand.bets@ == old(player).bj_hand.bets@
                            &&& final(player).balance == old(player).balance
                            &&& final(self).balance == old(self).balance
                        },
                    },
                }
            }),
    {
        if self.deck.shuffle_flag {
            match self.deck.shuffle(self.n_shuffles) {
                Ok(()) => (),
                Err(e) => {
                    return Err(e);
                },
            }
        }
        proof {
            if !old(self).deck.shuffle_flag {
                self.deck.lemma_unflagged_remaining();
            }
        }
        let ghost start = self.deck.deck_pos as int;
        let c1 = match self.deck.get_next_card() {
            Ok(c) => c,
            Err(e) => {
                return Err(e);
            },
        };
        let c2 = match self.deck.get_next_card() {
            Ok(c) => c,
            Err(e) => {
                return Err(e);
            },
        };
        let c3 = match self.deck.get_next_card() {
            Ok(c) => c,
            Err(e) => {
                return Err(e);
            },
        };
        let c4 = match self.deck.get_next_card() {
            Ok(c) => c,
            Err(e) => {
                return Err(e);
            },
        };
        player.receive_card(c1);
        player.receive_card(c3);
        self.dealers_hand.receive_card(c2);
        self.dealers_hand.receive_card(c4);
        proof {
            assert(player.bj_hand.hand_at(0) =~= seq![c1, c3]);
            assert(self.dealers_hand.hand@ =~= seq![c2, c4]);
            crate::hand::lemma_base_sum_two(c1, c3);
            crate::hand::lemma_base_sum_two(c2, c4);
        }
        player.compute_hand_value();
        self.dealers_hand.compute_hand_value();

        let bet = player.bj_hand.bets[0];
        proof {
            lemma_bets_total_elem_le(player.bj_hand.bets@, 0);
            lemma_bets_total_nonneg(player.bj_hand.bets@);
            assert(player.bj_hand.bets@ =~= seq![bet]);
            crate::player::lemma_bets_total_singleton(bet);
            crate::player::lemma_bets_total_singleton(0u64);
        }
        if self.dealers_hand.is_blackjack() {
            if player.has_blackjack() {
                let refund = player.bj_hand.lose_bet(0);
                player.hand_idx = 0;
                player.balance = player.balance + refund;
                proof {
                    assert(player.bj_hand.bets@ =~= seq![0u64]);
                }
                clear_settled_bet(player);
                Ok(DealOutcome::DealerBlackjack { push: true })
            } else {
                let forfeit = player.bj_hand.lose_bet(0);
                player.hand_idx = 0;
                self.balance = self.balance + forfeit;
                proof {
                    assert(player.bj_hand.bets@ =~= seq![0u64]);
                }
                clear_settled_bet(player);
                Ok(DealOutcome::DealerBlackjack { push: false })
            }
        } else {
            if player.has_blackjack() {
                let winnings = bet * 3 / 2;
                let refund = player.bj_hand.lose_bet(0);
                player.hand_idx = 0;
                self.balance = self.balance - winnings;
                player.balance = player.balance + refund + winnings;
                proof {
                    assert(player.bj_hand.bets@ =~= seq![0u64]);
                }
                clear_settled_bet(player);
                Ok(DealOutcome::PlayerBlackjack { winnings })
            } else {
                Ok(DealOutcome::InPlay)
            }
        }
    }

    /// Plays the dealer's hand to completion against the shoe, drawing
    /// under the draw-to-17 policy, and returns the dealer's optimal
    /// final total. Fails with `Exhausted` exactly when the shoe runs out
    /// while a draw is still required.
    pub fn get_dealers_optimal_final_hand(&mut self) -> (r: Result<u8, BlackjackGameError>)
        requires
            old(self).wf(),
            old(self).dealers_hand.values_current(),
        ensures
            final(self).wf(),
            final(self).balance == old(self).balance,
            final(self).n_shuffles == old(self).n_shuffles,
            final(self).dealers_hand.values_current(),
            final(self).deck.cards@ == old(self).deck.cards@,
            final(self).deck.n_decks == old(self).deck.n_decks,
            final(self).deck.shuffle_flag_pos == old(self).deck.shuffle_flag_pos,
            final(self).deck.shuffle_flag == (old(self).deck.shuffle_flag || (old(self).deck.deck_pos < final(self).deck.shuffle_flag_pos <= final(self).deck.deck_pos)),
            old(self).deck.deck_pos <= final(self).deck.deck_pos,
            final(self).dealers_hand.hand@ == old(self).dealers_hand.hand@ + final(self).deck.cards@.subrange(
                old(self).deck.deck_pos as int,
                final(self).deck.deck_pos as int,
            ),
            forall|k: int|
                old(self).dealers_hand.hand@.len() <= k < final(self).dealers_hand.hand@.len()
                    ==> crate::dealers_hand::dealer_must_draw(
                    final(self).dealers_hand.hand@.take(k),
                ),
            match r {
                Ok(v) => {
                    &&& !crate::dealers_hand::dealer_must_draw(final(self).dealers_hand.hand@)
                    &&& v == crate::hand::optimal_total(final(self).dealers_hand.hand@)
                },
                Err(e) => {
                    &&& e == BlackjackGameError::Exhausted
                    &&& final(self).deck.deck_pos == final(self).deck.cards@.len()
                    &&& crate::dealers_hand::dealer_must_draw(final(self).dealers_hand.hand@)
                },
            },
    {
        self.dealers_hand.compute_optimal_final_hand(&mut self.deck)
    }

    /// Settles the round. With no live bet left, scoring is skipped and
    /// the call always succeeds without touching the shoe. Otherwise the
    /// dealer draws to completion, and every hand with a live bet is
    /// compared against the dealer's final total: a win pays the bet back
    /// plus its equal from the bank, a push refunds the bet, and a loss
    /// forfeits it to the bank; the player is credited in one update.
    /// Either way both hands are then reset for the next round. Fails
    /// with `Exhausted` only when the shoe runs out during the dealer's
    /// forced draw, before anything is settled or reset — impossible with
    /// 17 or more cards left, since every draw raises the dealer's hard
    /// total by at least 1 and drawing stops at 17. The bank must cover
    /// the staked total, as an unsigned bank cannot go negative on a
    /// payout.
    pub fn finish_hand(&mut self, player: &mut Player) -> (r: Result<
        Option<RoundSummary>,
        BlackjackGameError,
    >)
        requires
            old(self).wf(),
            old(player).wf(),
            old(player).hand_idx == old(player).bj_hand.bets@.len(),
            forall|i: int|
                0 <= i < old(player).bj_hand.bets@.len() && old(player).bj_hand.bets@[i] > 0
                    ==> old(player).bj_hand.values_current(i),
            !old(player).no_live_bets() ==> old(self).dealers_hand.values_current(),
            old(self).balance >= bets_total(old(player).bj_hand.bets@),
            old(self).spec_table_money(*old(player)) <= MAX_TOTAL_MONEY,
        ensures
            final(self).wf(),
            final(player).wf(),
            final(self).n_shuffles == old(self).n_shuffles,
            final(self).deck.cards@ == old(self).deck.cards@,
            final(self).deck.n_decks == old(self).deck.n_decks,
            final(self).deck.shuffle_flag_pos == old(self).deck.shuffle_flag_pos,
            final(self).deck.shuffle_flag == (old(self).deck.shuffle_flag || (old(self).deck.deck_pos < final(self).deck.shuffle_flag_pos <= final(self).deck.deck_pos)),
            old(self).deck.deck_pos <= final(self).deck.deck_pos,
            final(self).spec_table_money(*final(player)) == old(self).spec_table_money(
                *old(player),
            ),
            old(player).no_live_bets() ==> r is Ok,
            !old(player).no_live_bets() && old(self).deck.spec_remaining() >= 17 ==> r is Ok,
            match r {
                Err(e) => {
                    &&& e == BlackjackGameError::Exhausted
                    &&& final(self).deck.deck_pos == final(self).deck.cards@.len()
                    &&& *final(player) == *old(player)
                    &&& final(self).balance == old(self).balance
                    &&& final(self).dealers_hand.hand@ == old(self).dealers_hand.hand@ + final(self).deck.cards@.subrange(
                        old(self).deck.deck_pos as int,
                        final(self).deck.deck_pos as int,
                    )
                    &&& forall|k: int|
                        old(self).dealers_hand.hand@.len() <= k < final(self).dealers_hand.hand@.len() ==> crate::dealers_hand::dealer_must_draw(
                            final(self).dealers_hand.hand@.take(k),
                        )
                    &&& crate::dealers_hand::dealer_must_draw(final(self).dealers_hand.hand@)
                },
                Ok(opt) => {
                    &&& final(player).hand_idx == 0
                    &&& final(player).bj_hand.bets@.len() == 0
                    &&& final(player).bj_hand.hand@.len() == 1
                    &&& final(player).bj_hand.hand_at(0).len() == 0
                    &&& final(self).dealers_hand.hand@.len() == 0
                    &&& final(self).dealers_hand.hand_value@.len() == 0
                    &&& match opt {
                        None => {
                            &&& old(player).no_live_bets()
                            &&& final(player).balance == old(player).balance
                            &&& final(self).balance == old(self).balance
                            &&& final(self).deck == old(self).deck
                        },
                        Some(s) => {
                            let n = old(player).bj_hand.bets@.len() as int;
                            let drawn = final(self).deck.cards@.subrange(
                                old(self).deck.deck_pos as int,
                                final(self).deck.deck_pos as int,
                            );
                            let dfinal = old(self).dealers_hand.hand@ + drawn;
                            &&& !old(player).no_live_bets()
                            &&& !crate::dealers_hand::dealer_must_draw(dfinal)
                            &&& forall|k: int|
                                old(self).dealers_hand.hand@.len() <= k < dfinal.len()
                                    ==> crate::dealers_hand::dealer_must_draw(dfinal.take(k))
                            &&& s.dealer_total == crate::hand::optimal_total(dfinal)
                            &&& s.outcomes@.len() == n
                            &&& forall|i: int|
                                0 <= i < n ==> s.outcomes@[i] == spec_outcome(
                                    *old(player),
                                    i,
                                    s.dealer_total as int,
                                )
                            &&& s.winnings == spec_winnings(*old(player), s.dealer_total as int, n)
                            &&& s.refunded == spec_refunds(*old(player), s.dealer_total as int, n)
                            &&& final(player).balance == old(player).balance + 2 * s.winnings
                                + s.refunded
                            &&& final(self).balance == old(self).balance - s.winnings
                                + spec_forfeits(*old(player), s.dealer_total as int, n)
                        },
                    }
                },
            },
    {
        proof {
            assert forall|i: int|
                0 <= i < player.bj_hand.bets@.len() && player.bj_hand.bets@[i] > 0 implies 1 <= (
            #[trigger] player.bj_hand.values_at(i)).len() <= 2 by {
                assert(player.bj_hand.values_current(i));
            }
        }
        let live = player.get_optimal_hands();
        if live.is_none() {
            proof {
                crate::player::lemma_bets_total_zero(player.bj_hand.bets@);
            }
            self.dealers_hand.reset();
            player.reset();
            return Ok(None);
        }
        proof {
            assert(!old(player).no_live_bets());
        }
        let dealer_total = match self.get_dealers_optimal_final_hand() {
            Ok(v) => v,
            Err(e) => {
                proof {
                    if old(self).deck.spec_remaining() >= 17 {
                        crate::hand::lemma_base_sum_ge_len(self.dealers_hand.hand@);
                    }
                }
                return Err(e);
            },
        };
        let ghost p0 = *player;
        let ghost bank0 = self.balance;
        let ghost deck0 = self.deck;
        let ghost dh0 = self.dealers_hand;
        let n = player.bj_hand.bets.len();
        let mut outcomes: Vec<HandOutcome> = Vec::new();
        let mut winnings: u64 = 0;
        let mut refunded: u64 = 0;
        for i in 0..n
            invariant
                *player == p0,
                p0 == *old(player),
                p0.wf(),
                n == p0.bj_hand.bets@.len(),
                forall|j: int|
                    0 <= j < p0.bj_hand.bets@.len() && p0.bj_hand.bets@[j] > 0
                        ==> p0.bj_hand.values_current(j),
                bank0 >= bets_total(p0.bj_hand.bets@),
                bank0 + p0.balance + bets_total(p0.bj_hand.bets@) <= MAX_TOTAL_MONEY,
                self.deck == deck0,
                self.dealers_hand == dh0,
                self.n_shuffles == old(self).n_shuffles,
                self.wf(),
                winnings == spec_winnings(p0, dealer_total as int, i as int),
                refunded == spec_refunds(p0, dealer_total as int, i as int),
                self.balance == bank0 - spec_winnings(p0, dealer_total as int, i as int)
                    + spec_forfeits(p0, dealer_total as int, i as int),
                outcomes@.len() == i,
                forall|k: int|
                    0 <= k < i ==> outcomes@[k] == spec_outcome(p0, k, dealer_total as int),
        {
            proof {
                lemma_settlement_bounds(p0, dealer_total as int, i as int);
                lemma_settlement_bounds(p0, dealer_total as int, i + 1);
                lemma_bets_total_take_le(p0.bj_hand.bets@, i + 1);
                lemma_bets_total_nonneg(p0.bj_hand.bets@);
            }
            let bet = player.bj_hand.bets[i];
            if bet > 0 {
                proof {
                    assert(p0.bj_hand.values_current(i as int));
                }
                let opt = crate::hand::compute_optimal_hand(&player.bj_hand.hand_values[i]);
                if dealer_total > 21 || opt > dealer_total {
                    self.balance = self.balance - bet;
                    winnings = winnings + bet;
                    outcomes.push(HandOutcome::Won);
                } else if opt == dealer_total {
                    refunded = refunded + bet;
                    outcomes.push(HandOutcome::Pushed);
                } else {
                    self.balance = self.balance + bet;
                    outcomes.push(HandOutcome::Lost);
                }
            } else {
                outcomes.push(HandOutcome::Lost);
            }
        }
        proof {
            lemma_settlement_bounds(p0, dealer_total as int, n as int);
            assert(p0.bj_hand.bets@.take(n as int) =~= p0.bj_hand.bets@);
            lemma_bets_total_nonneg(p0.bj_hand.bets@);
        }
        let credit = winnings * 2 + refunded;
        player.balance = player.balance + credit;
        self.dealers_hand.reset();
        player.reset();
        Ok(Some(RoundSummary { dealer_total, outcomes, winnings, refunded }))
    }
}

/// Removes the single zeroed bet slot after a natural was resolved,
/// leaving the player with no live bets so the turn is over.
fn clear_settled_bet(player: &mut Player)
    requires
        old(player).wf(),
        old(player).bj_hand.bets@ =~= seq![0u64],
        old(player).hand_idx == 0,
    ensures
        final(player).wf(),
        final(player).bj_hand.bets@.len() == 0,
        final(player).hand_idx == 0,
        final(player).balance == old(player).balance,
        final(player).bj_hand.hand@ == old(player).bj_hand.hand@,
        final(player).bj_hand.hand_values@ == old(player).bj_hand.hand_values@,
        final(player).spec_committed() == old(player).spec_committed(),
{
    let _popped = player.bj_hand.bets.pop();
    proof {
        assert(player.bj_hand.bets@ =~= Seq::<u64>::empty());
        crate::player::lemma_bets_total_push(player.bj_hand.bets@, 0u64);
    }
}

} // verus!

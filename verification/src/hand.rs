use vstd::prelude::*;

verus! {

use crate::card::{Card, Rank};

/// The "hard" total of a hand: the sum of the cards' base values, with
/// every ace counted as 1.
pub open spec fn base_sum(cards: Seq<Card>) -> int
    decreases cards.len(),
{
    if cards.len() == 0 {
        0
    } else {
        base_sum(cards.drop_last()) + cards.last().val
    }
}

/// Whether the hand holds at least one ace.
pub open spec fn has_ace(cards: Seq<Card>) -> bool {
    exists|i: int| 0 <= i < cards.len() && cards[i].rank == Rank::Ace
}

/// The candidate totals of a hand. The hard total is always a candidate;
/// a hand with at least one ace has exactly one alternate candidate, the
/// hard total plus 10 (one ace counted as 11 instead of 1). The alternate
/// is added at most once, however many aces the hand holds.
pub open spec fn candidate_totals(cards: Seq<Card>) -> Seq<int> {
    if has_ace(cards) {
        seq![base_sum(cards), base_sum(cards) + 10]
    } else {
        seq![base_sum(cards)]
    }
}

/// A hand is busted when every candidate total exceeds 21. The alternate
/// candidate always exceeds the hard total, so the hard total decides.
pub open spec fn is_bust(cards: Seq<Card>) -> bool {
    base_sum(cards) > 21
}

/// The optimal reading of a hand: the greatest candidate total that does
/// not exceed 21 if one exists, otherwise the least candidate total
/// (which then exceeds 21 and signals a bust by itself).
pub open spec fn optimal_total(cards: Seq<Card>) -> int {
    if has_ace(cards) && base_sum(cards) + 10 <= 21 {
        base_sum(cards) + 10
    } else {
        base_sum(cards)
    }
}

/// A natural blackjack: exactly two cards, one an ace and the other a
/// ten-valued card, in either order.
pub open spec fn is_natural(cards: Seq<Card>) -> bool {
    &&& cards.len() == 2
    &&& {
        ||| (cards[0].rank == Rank::Ace && cards[1].val == 10)
        ||| (cards[0].val == 10 && cards[1].rank == Rank::Ace)
    }
}

/// Whether `vals` is the computed candidate list of `cards`, as a hand
/// stores it: the hard total first, then the alternate if the hand holds
/// an ace.
pub open spec fn matches_candidates(vals: Seq<u8>, cards: Seq<Card>) -> bool {
    if has_ace(cards) {
        &&& vals.len() == 2
        &&& vals[0] == base_sum(cards)
        &&& vals[1] == base_sum(cards) + 10
    } else {
        &&& vals.len() == 1
        &&& vals[0] == base_sum(cards)
    }
}

/// The optimal reading of a stored candidate list: with two candidates,
/// the smaller if either exceeds 21 and the larger otherwise; with one
/// candidate, that candidate.
pub open spec fn optimal_of_values(vals: Seq<u8>) -> int {
    if vals.len() == 2 {
        if vals[0] > 21 || vals[1] > 21 {
            if vals[0] <= vals[1] {
                vals[0] as int
            } else {
                vals[1] as int
            }
        } else {
            if vals[0] >= vals[1] {
                vals[0] as int
            } else {
                vals[1] as int
            }
        }
    } else {
        vals[0] as int
    }
}

/// The hard total of a prefix never exceeds the hard total of the whole
/// hand, since card values are non-negative.
pub proof fn lemma_base_sum_take_le(cards: Seq<Card>, i: int)
    requires
        0 <= i <= cards.len(),
    ensures
        base_sum(cards.take(i)) <= base_sum(cards),
    decreases cards.len() - i,
{
    if i == cards.len() {
        assert(cards.take(i) =~= cards);
    } else {
        assert(cards.take(i + 1).drop_last() =~= cards.take(i));
        assert(base_sum(cards.take(i + 1)) == base_sum(cards.take(i)) + cards[i].val);
        lemma_base_sum_take_le(cards, i + 1);
    }
}

/// Appending a card adds its base value to the hard total.
pub proof fn lemma_base_sum_push(s: Seq<Card>, c: Card)
    ensures
        base_sum(s.push(c)) == base_sum(s) + c.val,
{
    assert(s.push(c).drop_last() =~= s);
}

/// The hard total of a two-card hand is the sum of the two base values.
pub proof fn lemma_base_sum_two(a: Card, b: Card)
    ensures
        base_sum(seq![a, b]) == a.val + b.val,
{
    assert(base_sum(Seq::<Card>::empty()) == 0);
    assert(seq![a].drop_last() =~= Seq::<Card>::empty());
    assert(seq![a].last() == a);
    assert(base_sum(seq![a]) == a.val);
    assert(seq![a, b].drop_last() =~= seq![a]);
    assert(seq![a, b].last() == b);
    assert(base_sum(seq![a, b]) == base_sum(seq![a]) + b.val);
}

/// Every well-formed card is worth at least 1, so a hand's hard total is
/// at least its number of cards.
pub proof fn lemma_base_sum_ge_len(cards: Seq<Card>)
    requires
        forall|i: int| 0 <= i < cards.len() ==> (#[trigger] cards[i]).wf(),
    ensures
        base_sum(cards) >= cards.len(),
    decreases cards.len(),
{
    if cards.len() > 0 {
        assert(forall|i: int|
            0 <= i < cards.drop_last().len() ==> cards.drop_last()[i] == #[trigger] cards[i]);
        lemma_base_sum_ge_len(cards.drop_last());
    }
}

/// Law: every hand has exactly one or two candidate totals — the hard
/// total first, and the +10 alternate exactly when the hand holds an
/// ace, applied once however many aces there are.
pub proof fn lemma_candidate_totals_shape(cards: Seq<Card>)
    ensures
        1 <= candidate_totals(cards).len() <= 2,
        candidate_totals(cards)[0] == base_sum(cards),
        candidate_totals(cards).len() == 2 <==> has_ace(cards),
        has_ace(cards) ==> candidate_totals(cards)[1] == base_sum(cards) + 10,
{
}

/// Law: the hard total is the least candidate, and a hand is busted
/// exactly when its least candidate — hence every candidate — exceeds 21.
pub proof fn lemma_bust_iff_min_over_21(cards: Seq<Card>)
    ensures
        forall|i: int|
            0 <= i < candidate_totals(cards).len() ==> candidate_totals(cards)[0] <= #[trigger] candidate_totals(
                cards,
            )[i],
        is_bust(cards) <==> (forall|i: int|
            0 <= i < candidate_totals(cards).len() ==> #[trigger] candidate_totals(cards)[i] > 21),
{
    if forall|i: int|
        0 <= i < candidate_totals(cards).len() ==> #[trigger] candidate_totals(cards)[i] > 21 {
        assert(candidate_totals(cards)[0] > 21);
    }
}

/// Law: the optimal total is one of the candidates; it is the greatest
/// candidate not exceeding 21 when one exists, and otherwise the least
/// candidate.
pub proof fn lemma_optimal_total_choice(cards: Seq<Card>)
    ensures
        candidate_totals(cards).contains(optimal_total(cards)),
        (exists|i: int|
            0 <= i < candidate_totals(cards).len() && #[trigger] candidate_totals(cards)[i] <= 21)
            ==> (optimal_total(cards) <= 21 && forall|i: int|
            0 <= i < candidate_totals(cards).len() && #[trigger] candidate_totals(cards)[i] <= 21
                ==> candidate_totals(cards)[i] <= optimal_total(cards)),
        (forall|i: int|
            0 <= i < candidate_totals(cards).len() ==> #[trigger] candidate_totals(cards)[i] > 21)
            ==> (forall|i: int|
            0 <= i < candidate_totals(cards).len() ==> optimal_total(cards)
                <= #[trigger] candidate_totals(cards)[i]),
{
    if has_ace(cards) && base_sum(cards) + 10 <= 21 {
        assert(candidate_totals(cards)[1] == optimal_total(cards));
    } else {
        assert(candidate_totals(cards)[0] == optimal_total(cards));
    }
}

/// A stored candidate list reads as busted exactly when the hand it was
/// computed from is busted.
pub proof fn lemma_busted_values_match(vals: Seq<u8>, cards: Seq<Card>)
    requires
        matches_candidates(vals, cards),
    ensures
        crate::players_hand::busted_values(vals) == is_bust(cards),
{
}

/// The optimal reading of a stored candidate list is the optimal total of
/// the hand it was computed from.
pub proof fn lemma_optimal_values_match(vals: Seq<u8>, cards: Seq<Card>)
    requires
        matches_candidates(vals, cards),
    ensures
        optimal_of_values(vals) == optimal_total(cards),
{
}

/// Computes the candidate totals of a hand from scratch: the hard total,
/// plus the single +10 alternate if the hand holds an ace.
pub fn compute_candidates(cards: &Vec<Card>) -> (vals: Vec<u8>)
    requires
        base_sum(cards@) + 10 <= u8::MAX,
    ensures
        matches_candidates(vals@, cards@),
{
    let ghost all = cards@;
    let mut sum: u8 = 0;
    let mut ace: bool = false;
    for i in 0..cards.len()
        invariant
            cards@ == all,
            base_sum(all) + 10 <= u8::MAX,
            sum == base_sum(all.take(i as int)),
            ace == has_ace(all.take(i as int)),
    {
        proof {
            assert(all.take(i + 1).drop_last() =~= all.take(i as int));
            assert(all.take(i + 1).last() == all[i as int]);
            lemma_base_sum_take_le(all, i + 1);
        }
        sum = sum + cards[i].val;
        if matches!(cards[i].rank, Rank::Ace) {
            ace = true;
        }
        proof {
            if ace {
                if all[i as int].rank == Rank::Ace {
                    assert(all.take(i + 1)[i as int].rank == Rank::Ace);
                } else {
                    let w = choose|j: int|
                        0 <= j < all.take(i as int).len() && all.take(i as int)[j].rank
                            == Rank::Ace;
                    assert(all.take(i + 1)[w].rank == Rank::Ace);
                }
            } else {
                assert(forall|j: int|
                    0 <= j < i + 1 ==> #[trigger] all.take(i + 1)[j].rank != Rank::Ace) by {
                    assert(forall|j: int|
                        0 <= j < i ==> all.take(i as int)[j] == #[trigger] all.take(i + 1)[j]);
                }
            }
        }
    }
    proof {
        assert(all.take(cards@.len() as int) =~= all);
    }
    let mut vals: Vec<u8> = Vec::new();
    vals.push(sum);
    if ace {
        vals.push(sum + 10);
    }
    vals
}

/// Returns the optimal final reading of a computed candidate list: the
/// greatest value not exceeding 21 if one exists, otherwise the least.
/// The list must hold one or two candidates, as every computed hand does.
pub fn compute_optimal_hand(hand_value: &Vec<u8>) -> (r: u8)
    requires
        1 <= hand_value@.len() <= 2,
    ensures
        r == optimal_of_values(hand_value@),
{
    if hand_value.len() == 2 {
        if hand_value[0] > 21 || hand_value[1] > 21 {
            if hand_value[0] <= hand_value[1] {
                hand_value[0]
            } else {
                hand_value[1]
            }
        } else {
            if hand_value[0] >= hand_value[1] {
                hand_value[0]
            } else {
                hand_value[1]
            }
        }
    } else {
        hand_value[0]
    }
}

} // verus!

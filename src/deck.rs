//! The draw pile: the fixed fifty-two card deck, shuffling, and refilling
//! the pile from the discard tally.

use vstd::prelude::*;
use rand::seq::SliceRandom;
use crate::card::{Card, ordinal, lemma_ordinal_card_of};

verus! {

broadcast use vstd::seq_lib::group_to_multiset_ensures;

/// Number of ranks, and so the length of a discard tally.
pub const RANKS: usize = 14;

/// Every rank but the Jack, One-Eye included, once each.
pub open spec fn block_with_one_eye() -> Seq<Card> {
    seq![Card::Ace, Card::Two, Card::Three, Card::Four, Card::Five, Card::Six, Card::Seven,
        Card::Eight, Card::Nine, Card::Ten, Card::Queen, Card::King, Card::OneEye]
}

/// Every rank but One-Eye, the Jack included, once each.
pub open spec fn block_with_jack() -> Seq<Card> {
    seq![Card::Ace, Card::Two, Card::Three, Card::Four, Card::Five, Card::Six, Card::Seven,
        Card::Eight, Card::Nine, Card::Ten, Card::Jack, Card::Queen, Card::King]
}

/// The deck in the order it is built, before shuffling: fifty-two cards,
/// four of each rank but the Jack and One-Eye, which come twice each.
pub open spec fn standard_deck() -> Seq<Card> {
    block_with_one_eye() + block_with_one_eye() + block_with_jack() + block_with_jack()
}

/// The sum of the first `k` counts of a tally.
pub open spec fn sum_prefix(t: Seq<usize>, k: int) -> int
    decreases k,
{
    if k <= 0 {
        0
    } else {
        sum_prefix(t, k - 1) + t[k - 1]
    }
}

/// The number of plays a tally records.
pub open spec fn tally_sum(t: Seq<usize>) -> int {
    sum_prefix(t, t.len() as int)
}

/// A tally that is well formed: one count per rank.
pub open spec fn tally_wf(t: Seq<usize>) -> bool {
    t.len() == RANKS
}

/// Relies on rand 0.8's `SliceRandom::shuffle` with the thread-local
/// generator: the slice is permuted in place by swaps, so it holds the same
/// items as before, in an order that chance decides.
#[verifier::external_body]
fn shuffle_slice<T>(items: &mut [T])
    ensures
        final(items)@.to_multiset() == old(items)@.to_multiset(),
        final(items)@.len() == old(items)@.len(),
{
    items.shuffle(&mut rand::thread_rng());
}

/// Puts the items of `v` in an order that chance decides.
pub fn shuffle_vec<T>(v: &mut Vec<T>)
    ensures
        final(v)@.to_multiset() == old(v)@.to_multiset(),
        final(v)@.len() == old(v)@.len(),
{
    shuffle_slice(v.as_mut_slice());
}

fn rank_block(with_one_eye: bool) -> (r: Vec<Card>)
    ensures
        r@ == if with_one_eye { block_with_one_eye() } else { block_with_jack() },
{
    if with_one_eye {
        vec![Card::Ace, Card::Two, Card::Three, Card::Four, Card::Five, Card::Six, Card::Seven,
            Card::Eight, Card::Nine, Card::Ten, Card::Queen, Card::King, Card::OneEye]
    } else {
        vec![Card::Ace, Card::Two, Card::Three, Card::Four, Card::Five, Card::Six, Card::Seven,
            Card::Eight, Card::Nine, Card::Ten, Card::Jack, Card::Queen, Card::King]
    }
}

/// The unshuffled deck.
pub fn build_deck() -> (deck: Vec<Card>)
    ensures
        deck@ == standard_deck(),
        deck@.len() == 52,
{
    let mut deck: Vec<Card> = Vec::new();
    let mut b1 = rank_block(true);
    deck.append(&mut b1);
    let mut b2 = rank_block(true);
    deck.append(&mut b2);
    let mut b3 = rank_block(false);
    deck.append(&mut b3);
    let mut b4 = rank_block(false);
    deck.append(&mut b4);
    assert(deck@ =~= standard_deck());
    deck
}

/// The fifty-two cards of the deck, in an order that chance decides.
pub fn shuffled_deck() -> (deck: Vec<Card>)
    ensures
        deck@.to_multiset() == standard_deck().to_multiset(),
        deck@.len() == 52,
{
    let mut deck = build_deck();
    shuffle_vec(&mut deck);
    deck
}

/// A tally with every count at zero.
pub fn empty_tally() -> (t: Vec<usize>)
    ensures
        tally_wf(t@),
        forall|k: int| 0 <= k < RANKS ==> t@[k] == 0,
        tally_sum(t@) == 0,
{
    let t: Vec<usize> = vec![0; RANKS];
    assert(sum_prefix(t@, 14) == 0) by {
        reveal_with_fuel(sum_prefix, 15);
    }
    t
}

/// Adding to one count of a tally adds as much to its sum.
pub proof fn lemma_sum_prefix_update(t: Seq<usize>, i: int, v: usize, k: int)
    requires
        0 <= i < t.len(),
        0 <= k <= t.len(),
    ensures
        sum_prefix(t.update(i, v), k) == sum_prefix(t, k) + if i < k {
            v - t[i]
        } else {
            0
        },
    decreases k,
{
    if k > 0 {
        lemma_sum_prefix_update(t, i, v, k - 1);
    }
}

/// Every count of a tally is at most its sum.
pub proof fn lemma_count_le_sum(t: Seq<usize>, i: int, k: int)
    requires
        0 <= i < k <= t.len(),
    ensures
        t[i] <= sum_prefix(t, k),
    decreases k,
{
    if i < k - 1 {
        lemma_count_le_sum(t, i, k - 1);
    }
    lemma_sum_prefix_nonneg(t, k - 1);
}

/// The sum of a prefix of a tally is never negative.
pub proof fn lemma_sum_prefix_nonneg(t: Seq<usize>, k: int)
    ensures
        sum_prefix(t, k) >= 0,
    decreases k,
{
    if k > 0 {
        lemma_sum_prefix_nonneg(t, k - 1);
    }
}

/// Appends to `deck`, for each rank, as many cards of it as `tally` counts,
/// then shuffles the whole pile.
pub fn recycle(deck: &mut Vec<Card>, tally: &Vec<usize>)
    requires
        tally_wf(tally@),
    ensures
        final(deck)@.len() == old(deck)@.len() + tally_sum(tally@),
        forall|c: Card|
            #[trigger] final(deck)@.to_multiset().count(c) == old(deck)@.to_multiset().count(c)
                + tally@[ordinal(c)],
{
    let ghost d0 = deck@;
    let mut k: usize = 0;
    while k < RANKS
        invariant
            k <= RANKS,
            tally_wf(tally@),
            deck@.len() == d0.len() + sum_prefix(tally@, k as int),
            forall|c: Card|
                #[trigger] deck@.to_multiset().count(c) == d0.to_multiset().count(c) + if ordinal(
                    c,
                ) < k {
                    tally@[ordinal(c)] as int
                } else {
                    0
                },
        decreases RANKS - k,
    {
        let card = Card::from_ordinal(k);
        let n = tally[k];
        let mut j: usize = 0;
        while j < n
            invariant
                j <= n,
                n == tally@[k as int],
                k < RANKS,
                ordinal(card) == k,
                tally_wf(tally@),
                deck@.len() == d0.len() + sum_prefix(tally@, k as int) + j,
                forall|c: Card|
                    #[trigger] deck@.to_multiset().count(c) == d0.to_multiset().count(c) + if ordinal(
                        c,
                    ) < k {
                        tally@[ordinal(c)] as int
                    } else if c == card {
                        j as int
                    } else {
                        0
                    },
            decreases n - j,
        {
            deck.push(card);
            j = j + 1;
        }
        proof {
            assert forall|c: Card| ordinal(c) == k implies c == card by {
                lemma_ordinal_card_of(c, k as int);
                lemma_ordinal_card_of(card, k as int);
            }
        }
        k = k + 1;
    }
    shuffle_vec(deck);
}

} // verus!

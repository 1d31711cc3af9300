//! One round of the game as a state machine: dealing, then one play at a
//! time until a play takes the total over the ceiling.
//!
//! A round does not choose the cards: the caller asks each player's policy
//! for a hand position (`auto_position` answers for the bots that follow a
//! preference order) and hands it to `play`.

use vstd::prelude::*;
use crate::card::{Card, effect, ordinal, total_in_range, lemma_ordinal_card_of, CEILING};
use crate::deck::{
    RANKS, tally_wf, tally_sum, empty_tally, recycle, lemma_sum_prefix_update, lemma_count_le_sum,
};
use crate::player::{Player, hand_of, losses_of, same_policy, heuristic_choice, CHOICES};

verus! {

broadcast use vstd::seq_lib::group_to_multiset_ensures;

/// Cards dealt to each player at the start of a round.
pub const HAND_SIZE: usize = 3;

/// The state of a round in play, or of one that has ended.
pub struct Round {
    /// The draw pile; the next card drawn is the first.
    pub deck: Vec<Card>,
    /// How often each rank has been played, indexed by ordinal.
    pub discard: Vec<usize>,
    pub total: i64,
    /// +1 or -1: the step from one player's index to the next.
    pub direction: i64,
    /// The index of the player whose turn it is (or who lost).
    pub current: usize,
    pub num_players: usize,
    /// The index of the player who busted, once the round has ended.
    pub loser: Option<usize>,
}

/// The index after `i` in direction `d` among `n` players, wrapping around.
pub open spec fn next_index(i: int, d: int, n: int) -> int {
    if i + d >= n {
        0
    } else if i + d <= -1 {
        n - 1
    } else {
        i + d
    }
}

/// The cards that player `i` of `n` receives from `d` in `rounds` rounds of dealing.
pub open spec fn dealt(d: Seq<Card>, n: int, i: int, rounds: int) -> Seq<Card> {
    Seq::new(rounds as nat, |q: int| d[q * n + i])
}

/// The number of cards held in all the hands.
pub open spec fn hands_sum(ps: Seq<Player>) -> int
    decreases ps.len(),
{
    if ps.len() == 0 {
        0
    } else {
        hands_sum(ps.drop_last()) + hand_of(ps.last()).len()
    }
}

/// Cards in the hands, in the draw pile, and counted in the discard tally.
pub open spec fn cards_in_round(r: Round, ps: Seq<Player>) -> int {
    hands_sum(ps) + r.deck@.len() + tally_sum(r.discard@)
}

/// Changing the size of one hand by `delta` changes the sum by as much.
pub proof fn lemma_hands_sum_delta(p: Seq<Player>, q: Seq<Player>, j: int, delta: int)
    requires
        p.len() == q.len(),
        0 <= j < p.len(),
        forall|i: int| 0 <= i < p.len() && i != j ==> hand_of(q[i]).len() == hand_of(p[i]).len(),
        hand_of(q[j]).len() == hand_of(p[j]).len() + delta,
    ensures
        hands_sum(q) == hands_sum(p) + delta,
    decreases p.len(),
{
    if j < p.len() - 1 {
        lemma_hands_sum_delta(p.drop_last(), q.drop_last(), j, delta);
    } else {
        lemma_hands_sum_same(p.drop_last(), q.drop_last());
    }
}

/// Hands of the same sizes have the same sum.
pub proof fn lemma_hands_sum_same(p: Seq<Player>, q: Seq<Player>)
    requires
        p.len() == q.len(),
        forall|i: int| 0 <= i < p.len() ==> hand_of(q[i]).len() == hand_of(p[i]).len(),
    ensures
        hands_sum(q) == hands_sum(p),
    decreases p.len(),
{
    if p.len() > 0 {
        lemma_hands_sum_same(p.drop_last(), q.drop_last());
    }
}

/// Hands of three cards each sum to three cards per player.
pub proof fn lemma_hands_sum_full(p: Seq<Player>)
    requires
        forall|i: int| 0 <= i < p.len() ==> hand_of(p[i]).len() == HAND_SIZE,
    ensures
        hands_sum(p) == HAND_SIZE * p.len(),
    decreases p.len(),
{
    if p.len() > 0 {
        lemma_hands_sum_full(p.drop_last());
    }
}

impl Round {
    /// The round's invariant while it is in play, or once it has ended.
    pub open spec fn wf(self, ps: Seq<Player>) -> bool {
        &&& self.num_players == ps.len()
        &&& self.num_players > 0
        &&& self.current < self.num_players
        &&& self.direction == 1 || self.direction == -1
        &&& tally_wf(self.discard@)
        &&& self.loser is None ==> {
            &&& self.total <= CEILING
            &&& self.deck@.len() > 0
            &&& hand_of(ps[self.current as int]).len() >= HAND_SIZE
            &&& forall|i: int| 0 <= i < ps.len() ==> hand_of(#[trigger] ps[i]).len() >= HAND_SIZE - 1
        }
        &&& self.loser matches Some(l) ==> l == self.current
    }

    /// What the next play needs of the machine: a total, tally counts and a
    /// loss count that one more step cannot overflow.
    pub open spec fn within_limits(self, ps: Seq<Player>) -> bool {
        &&& total_in_range(self.total as int)
        &&& forall|k: int| 0 <= k < RANKS ==> self.discard@[k] < usize::MAX
        &&& losses_of(ps[self.current as int]) < u32::MAX
    }

    /// Starts a round: empties every hand, deals three cards to each player
    /// from the front of `deck` (player 0 first, round by round), and leaves
    /// the rest as the draw pile, with a total of 0, direction +1 and
    /// `first_player` to play. With no players there is no round: `None`,
    /// and nothing changes.
    pub fn deal(players: &mut Vec<Player>, first_player: usize, deck: Vec<Card>) -> (r: Option<Round>)
        requires
            old(players)@.len() > 0 ==> first_player < old(players)@.len() && deck@.len() > HAND_SIZE * old(players)@.len(),
        ensures
            old(players)@.len() == 0 <==> r is None,
            r is None ==> final(players)@ == old(players)@,
            r matches Some(round) ==> {
                let n = old(players)@.len() as int;
                &&& round.wf(final(players)@)
                &&& round.loser is None
                &&& round.total == 0
                &&& round.direction == 1
                &&& round.current == first_player
                &&& forall|k: int| 0 <= k < RANKS ==> round.discard@[k] == 0
                &&& round.deck@ == deck@.subrange(HAND_SIZE * n, deck@.len() as int)
                &&& final(players)@.len() == n
                &&& forall|i: int| 0 <= i < n ==> {
                    &&& hand_of(#[trigger] final(players)@[i]) == dealt(deck@, n, i, HAND_SIZE as int)
                    &&& losses_of(final(players)@[i]) == losses_of(old(players)@[i])
                    &&& same_policy(final(players)@[i], old(players)@[i])
                }
                &&& cards_in_round(round, final(players)@) == deck@.len()
                &&& round.deck@.len() == deck@.len() - HAND_SIZE * n
            },
    {
        let n = players.len();
        if n == 0 {
            return None;
        }
        let ghost p0 = players@;
        let ghost d0 = deck@;
        let mut i: usize = 0;
        while i < n
            invariant
                i <= n,
                n == players@.len(),
                forall|j: int| 0 <= j < i ==> hand_of(#[trigger] players@[j]) == Seq::<Card>::empty(),
                forall|j: int| 0 <= j < n ==> losses_of(#[trigger] players@[j]) == losses_of(p0[j]) && same_policy(players@[j], p0[j]),
            decreases n - i,
        {
            players[i].clear_hand();
            i = i + 1;
        }
        let mut deck = deck;
        let mut r: usize = 0;
        while r < HAND_SIZE
            invariant
                r <= HAND_SIZE,
                n == players@.len(),
                n > 0,
                d0.len() > HAND_SIZE * n,
                deck@ == d0.subrange(r * n, d0.len() as int),
                forall|j: int| 0 <= j < n ==> hand_of(#[trigger] players@[j]) == dealt(d0, n as int, j, r as int),
                forall|j: int| 0 <= j < n ==> losses_of(#[trigger] players@[j]) == losses_of(p0[j]) && same_policy(players@[j], p0[j]),
            decreases HAND_SIZE - r,
        {
            let mut j: usize = 0;
            while j < n
                invariant
                    j <= n,
                    r < HAND_SIZE,
                    n == players@.len(),
                    d0.len() > HAND_SIZE * n,
                    deck@ == d0.subrange(r * n + j, d0.len() as int),
                    forall|m: int| 0 <= m < j ==> hand_of(#[trigger] players@[m]) == dealt(d0, n as int, m, r + 1),
                    forall|m: int| j <= m < n ==> hand_of(#[trigger] players@[m]) == dealt(d0, n as int, m, r as int),
                    forall|m: int| 0 <= m < n ==> losses_of(#[trigger] players@[m]) == losses_of(p0[m]) && same_policy(players@[m], p0[m]),
                decreases n - j,
            {
                proof {
                    assert(r * n + j < HAND_SIZE * n) by (nonlinear_arith)
                        requires r < HAND_SIZE, j < n;
                }
                let c = deck.remove(0);
                proof {
                    assert(dealt(d0, n as int, j as int, r + 1) =~= dealt(d0, n as int, j as int, r as int).push(c));
                    assert(deck@ =~= d0.subrange(r * n + j + 1, d0.len() as int));
                }
                players[j].take_card(c);
                j = j + 1;
            }
            proof {
                assert(r * n + n == (r + 1) * n) by (nonlinear_arith);
            }
            r = r + 1;
        }
        let discard = empty_tally();
        let round = Round {
            deck,
            discard,
            total: 0,
            direction: 1,
            current: first_player,
            num_players: n,
            loser: None,
        };
        proof {
            assert forall|j: int| 0 <= j < n implies hand_of(#[trigger] players@[j]).len() == HAND_SIZE by {
            }
            lemma_hands_sum_full(players@);
        }
        Some(round)
    }

    /// The players after the play at `position` of the current player's hand:
    /// that card leaves the hand; on a bust the player who played it counts a
    /// loss, else the next player draws the top card of the pile.
    pub open spec fn players_after(self, ps: Seq<Player>, position: int, bust: bool, q: Seq<Player>) -> bool {
        let cur = self.current as int;
        let next = next_index(cur, self.direction_after(ps, position), self.num_players as int);
        &&& q.len() == ps.len()
        &&& forall|i: int| 0 <= i < ps.len() ==> {
            let h = if i == cur { hand_of(ps[i]).remove(position) } else { hand_of(ps[i]) };
            &&& same_policy(#[trigger] q[i], ps[i])
            &&& losses_of(q[i]) == losses_of(ps[i]) + if bust && i == cur { 1int } else { 0 }
            &&& hand_of(q[i]) == if !bust && i == next { h.push(self.deck@[0]) } else { h }
        }
    }

    /// The card played from `position` of the current player's hand.
    pub open spec fn card_at(self, ps: Seq<Player>, position: int) -> Card {
        hand_of(ps[self.current as int])[position]
    }

    /// The direction once the card at `position` is played: an Eight reverses it.
    pub open spec fn direction_after(self, ps: Seq<Player>, position: int) -> int {
        if self.card_at(ps, position) == Card::Eight {
            -self.direction
        } else {
            self.direction as int
        }
    }

    /// Whether the machine limits of `within_limits` hold.
    pub fn fits(&self, players: &Vec<Player>) -> (r: bool)
        requires
            self.wf(players@),
        ensures
            r == self.within_limits(players@),
    {
        if self.total < i64::MIN + 10 || self.total > i64::MAX - 10 {
            return false;
        }
        if players[self.current].loss_count() == u32::MAX {
            return false;
        }
        let mut k: usize = 0;
        while k < RANKS
            invariant
                k <= RANKS,
                tally_wf(self.discard@),
                forall|m: int| 0 <= m < k ==> self.discard@[m] < usize::MAX,
            decreases RANKS - k,
        {
            if self.discard[k] == usize::MAX {
                return false;
            }
            k = k + 1;
        }
        true
    }

    /// The hand position that the current player picks by its own rule,
    /// where it has one: a preference-order bot's choice; `None` for a person
    /// or a model-led bot, whose choice comes from outside.
    pub fn auto_position(&self, players: &Vec<Player>) -> (r: Option<usize>)
        requires
            self.wf(players@),
            self.loser is None,
            total_in_range(self.total as int),
        ensures
            match players@[self.current as int] {
                Player::Bot(b) => r == Some(heuristic_choice(b.priorities@, b.hand@, self.total as int) as usize),
                _ => r is None,
            },
            r matches Some(p) ==> p < CHOICES,
    {
        match &players[self.current] {
            Player::Bot(b) => Some(b.choice(self.total)),
            _ => None,
        }
    }

    /// Plays the card at `position` of the current player's hand.
    ///
    /// The rank's tally count goes up by one; an Eight reverses the
    /// direction; the total becomes the card's effect on it. If the total is
    /// now over the ceiling, the player who played loses the round: the
    /// result is its index, and nobody moves on or draws. Otherwise the turn
    /// passes one step in the (new) direction, that player draws the top card
    /// of the pile, and a pile left empty is refilled from the tally and
    /// shuffled; the result is `None`.
    pub fn play(&mut self, players: &mut Vec<Player>, position: usize) -> (r: Option<usize>)
        requires
            old(self).wf(old(players)@),
            old(self).loser is None,
            old(self).within_limits(old(players)@),
            position < hand_of(old(players)@[old(self).current as int]).len(),
        ensures
            ({
                let s = *old(self);
                let t = *final(self);
                let ps = old(players)@;
                let c = s.card_at(ps, position as int);
                let k = ordinal(c);
                let bust = effect(c, s.total as int) > CEILING;
                let next = next_index(s.current as int, s.direction_after(ps, position as int), s.num_players as int);
                &&& t.wf(final(players)@)
                &&& t.num_players == s.num_players
                &&& t.discard@ == s.discard@.update(k, (s.discard@[k] + 1) as usize)
                &&& t.direction == s.direction_after(ps, position as int)
                &&& t.total == effect(c, s.total as int)
                &&& s.players_after(ps, position as int, bust, final(players)@)
                &&& bust ==> {
                    &&& r == Some(s.current)
                    &&& t.loser == Some(s.current)
                    &&& t.current == s.current
                    &&& t.deck@ == s.deck@
                    &&& cards_in_round(t, final(players)@) == cards_in_round(s, ps)
                }
                &&& !bust ==> {
                    &&& r is None
                    &&& t.loser is None
                    &&& t.current == next
                    &&& t.deck@.len() > 0
                    &&& s.deck@.len() > 1 ==> t.deck@ == s.deck@.drop_first()
                        && cards_in_round(t, final(players)@) == cards_in_round(s, ps)
                    &&& s.deck@.len() == 1 ==> (forall|x: Card| #[trigger] t.deck@.to_multiset().count(x) == t.discard@[ordinal(x)])
                        && t.deck@.len() == tally_sum(t.discard@)
                        && cards_in_round(t, final(players)@) == cards_in_round(s, ps) + tally_sum(t.discard@)
                }
            }),
    {
        let ghost s = *self;
        let ghost ps = players@;
        let cur = self.current;
        let card = players[cur].discard_at(position);
        let ghost ps1 = players@;
        let k = card.num_form() as usize;
        proof {
            lemma_ordinal_card_of(card, 0);
            lemma_sum_prefix_update(self.discard@, k as int, (self.discard@[k as int] + 1) as usize, RANKS as int);
            lemma_hands_sum_delta(ps, ps1, cur as int, -1);
        }
        let count = self.discard[k] + 1;
        self.discard.set(k, count);
        if card == Card::Eight {
            self.direction = -self.direction;
        }
        self.total = card.new_number(self.total);
        if self.total > CEILING {
            players[cur].lose();
            proof {
                lemma_hands_sum_same(ps1, players@);
            }
            self.loser = Some(cur);
            return Some(cur);
        }
        let n = self.num_players;
        let next: usize = if self.direction == 1 {
            if cur + 1 >= n {
                0
            } else {
                cur + 1
            }
        } else {
            if cur == 0 {
                n - 1
            } else {
                cur - 1
            }
        };
        self.current = next;
        let top = self.deck.remove(0);
        let ghost ps2 = players@;
        players[next].take_card(top);
        proof {
            lemma_hands_sum_delta(ps1, players@, next as int, 1);
            assert(self.deck@ =~= s.deck@.drop_first());
        }
        if self.deck.len() == 0 {
            recycle(&mut self.deck, &self.discard);
            proof {
                lemma_count_le_sum(self.discard@, k as int, RANKS as int);
                assert forall|x: Card| #[trigger] self.deck@.to_multiset().count(x) == self.discard@[ordinal(x)] by {
                    assert(!Seq::<Card>::empty().contains(x));
                }
            }
        }
        None
    }
}

} // verus!

//! The players: a person at the keyboard, a bot that follows a fixed order of
//! preference among the ranks, and a bot led by a learned model. Each holds a
//! hand and a count of the rounds it has lost.

use vstd::prelude::*;
use crate::card::{Card, effect, ordinal, card_of, total_in_range, lemma_ordinal_card_of, CEILING};
use crate::deck::shuffle_vec;

verus! {

broadcast use vstd::seq_lib::group_to_multiset_ensures;

/// How many leading cards of a hand a policy looks at.
pub const CHOICES: usize = 3;

/// A person who picks a card by its position in the hand.
pub struct Person {
    pub hand: Vec<Card>,
    pub losses: u32,
}

/// A bot that plays ranks in a fixed order of preference, skipping any card
/// that would bust.
pub struct BasicBot {
    pub hand: Vec<Card>,
    pub losses: u32,
    /// Rank ordinals, most preferred first.
    pub priorities: Vec<usize>,
}

/// A bot whose preferences come from a learned model; `brain` identifies the
/// model among those the caller evaluates.
pub struct BotNod {
    pub hand: Vec<Card>,
    pub losses: u32,
    pub brain: usize,
}

pub enum Player {
    Human(Person),
    Bot(BasicBot),
    Nod(BotNod),
}

/// Whether `c` may be played on `total`: any card when `safe_only` is false,
/// else only one that does not bust.
pub open spec fn playable(c: Card, total: int, safe_only: bool) -> bool {
    !safe_only || effect(c, total) <= 99
}

/// The first of positions `h..3` of `hand` that holds rank `rank` and is playable.
pub open spec fn held_at(rank: int, hand: Seq<Card>, total: int, safe_only: bool, h: int) -> Option<
    int,
>
    decreases CHOICES - h,
{
    if h >= CHOICES || h < 0 {
        None
    } else if ordinal(hand[h]) == rank && playable(hand[h], total, safe_only) {
        Some(h)
    } else {
        held_at(rank, hand, total, safe_only, h + 1)
    }
}

/// The position chosen by scanning `order` from index `p`: for the first rank
/// in it that one of the first three cards holds (and may play), the first
/// such position; position 0 when none does.
pub open spec fn choice_from(order: Seq<usize>, hand: Seq<Card>, total: int, safe_only: bool, p: int) -> int
    decreases order.len() - p,
{
    if p >= order.len() || p < 0 {
        0
    } else {
        match held_at(order[p] as int, hand, total, safe_only, 0) {
            Some(h) => h,
            None => choice_from(order, hand, total, safe_only, p + 1),
        }
    }
}

/// The position a preference-order bot plays on `total`.
pub open spec fn heuristic_choice(priorities: Seq<usize>, hand: Seq<Card>, total: int) -> int {
    choice_from(priorities, hand, total, true, 0)
}

/// The position a model-led bot plays, given its ranks from best to worst.
pub open spec fn ranked_choice(ranking: Seq<usize>, hand: Seq<Card>) -> int {
    choice_from(ranking, hand, 0, false, 0)
}

pub open spec fn hand_of(p: Player) -> Seq<Card> {
    match p {
        Player::Human(f) => f.hand@,
        Player::Bot(f) => f.hand@,
        Player::Nod(f) => f.hand@,
    }
}

pub open spec fn losses_of(p: Player) -> int {
    match p {
        Player::Human(f) => f.losses as int,
        Player::Bot(f) => f.losses as int,
        Player::Nod(f) => f.losses as int,
    }
}

/// Two players of the same kind, with the same policy state.
pub open spec fn same_policy(a: Player, b: Player) -> bool {
    match (a, b) {
        (Player::Human(_), Player::Human(_)) => true,
        (Player::Bot(x), Player::Bot(y)) => x.priorities@ == y.priorities@,
        (Player::Nod(x), Player::Nod(y)) => x.brain == y.brain,
        _ => false,
    }
}

/// What the positions of a hand are named by: "1", "2" and "3".
pub open spec fn selection_of(input: Seq<char>) -> Option<int> {
    if input == "1"@ {
        Some(0)
    } else if input == "2"@ {
        Some(1)
    } else if input == "3"@ {
        Some(2)
    } else {
        None
    }
}

/// The policy phase of a total: -1 below 80, 0 from 80 to 89, 1 from 90.
pub open spec fn phase_of(total: int) -> int {
    if total < 80 {
        -1
    } else if total < 90 {
        0
    } else {
        1
    }
}

/// The position of the first of the three leading cards of `hand` that holds
/// rank `rank` and is playable, if any.
fn held_position(rank: usize, hand: &Vec<Card>, total: i64, safe_only: bool) -> (r: Option<usize>)
    requires
        hand@.len() >= CHOICES,
        total_in_range(total as int),
    ensures
        r == (match held_at(rank as int, hand@, total as int, safe_only, 0) {
            Some(h) => Some(h as usize),
            None => None::<usize>,
        }),
{
    let mut h: usize = 0;
    while h < CHOICES
        invariant
            h <= CHOICES,
            hand@.len() >= CHOICES,
            total_in_range(total as int),
            held_at(rank as int, hand@, total as int, safe_only, 0) == held_at(
                rank as int,
                hand@,
                total as int,
                safe_only,
                h as int,
            ),
        decreases CHOICES - h,
    {
        let c = hand[h];
        if c.num_form() as usize == rank && (!safe_only || c.new_number(total) <= CEILING) {
            return Some(h);
        }
        h = h + 1;
    }
    None
}

/// The position that scanning `order` chooses (see `choice_from`).
pub fn preferred_position(order: &Vec<usize>, hand: &Vec<Card>, total: i64, safe_only: bool) -> (r:
    usize)
    requires
        hand@.len() >= CHOICES,
        total_in_range(total as int),
    ensures
        r == choice_from(order@, hand@, total as int, safe_only, 0),
        r < CHOICES,
{
    let mut p: usize = 0;
    while p < order.len()
        invariant
            p <= order@.len(),
            hand@.len() >= CHOICES,
            total_in_range(total as int),
            choice_from(order@, hand@, total as int, safe_only, 0) == choice_from(
                order@,
                hand@,
                total as int,
                safe_only,
                p as int,
            ),
        decreases order@.len() - p,
    {
        proof {
            lemma_held_at_bounded(order@[p as int] as int, hand@, total as int, safe_only, 0);
        }
        match held_position(order[p], hand, total, safe_only) {
            Some(h) => {
                return h;
            },
            None => {},
        }
        p = p + 1;
    }
    0
}

/// A position that `held_at` finds is one of the three leading ones.
pub proof fn lemma_held_at_bounded(rank: int, hand: Seq<Card>, total: int, safe_only: bool, h: int)
    ensures
        held_at(rank, hand, total, safe_only, h) matches Some(x) ==> h <= x < CHOICES
            && ordinal(hand[x]) == rank && playable(hand[x], total, safe_only),
    decreases CHOICES - h,
{
    if h < CHOICES && h >= 0 {
        lemma_held_at_bounded(rank, hand, total, safe_only, h + 1);
    }
}

/// When one of positions `start..=h` holds rank `rank` playably, the scan from
/// `start` finds such a position, no later than `h`.
pub proof fn lemma_held_at_finds(rank: int, hand: Seq<Card>, total: int, safe_only: bool, start: int, h: int)
    requires
        0 <= start <= h < CHOICES,
        ordinal(hand[h]) == rank,
        playable(hand[h], total, safe_only),
    ensures
        held_at(rank, hand, total, safe_only, start) matches Some(x) && x <= h,
    decreases h - start,
{
    if start < h {
        lemma_held_at_finds(rank, hand, total, safe_only, start + 1, h);
    }
}

/// A preference-order bot plays its most preferred rank whenever one of its
/// three leading cards holds that rank without busting: it then plays the
/// first such card, before any rank it prefers less.
pub proof fn lemma_most_preferred_safe_rank_wins(priorities: Seq<usize>, hand: Seq<Card>, total: int, h: int)
    requires
        priorities.len() > 0,
        0 <= h < CHOICES,
        hand.len() >= CHOICES,
        ordinal(hand[h]) == priorities[0],
        effect(hand[h], total) <= 99,
    ensures
        ordinal(hand[heuristic_choice(priorities, hand, total)]) == priorities[0],
        effect(hand[heuristic_choice(priorities, hand, total)], total) <= 99,
        heuristic_choice(priorities, hand, total) <= h,
{
    lemma_held_at_finds(priorities[0] as int, hand, total, true, 0, h);
    lemma_held_at_bounded(priorities[0] as int, hand, total, true, 0);
}

/// The position in a hand that an answer "1", "2" or "3" names.
pub fn selection(input: &String) -> (r: Option<usize>)
    ensures
        r == (match selection_of(input@) {
            Some(k) => Some(k as usize),
            None => None::<usize>,
        }),
{
    proof {
        reveal_strlit("1");
        reveal_strlit("2");
        reveal_strlit("3");
    }
    let one = "1".to_owned();
    let two = "2".to_owned();
    let three = "3".to_owned();
    if *input == one {
        Some(0)
    } else if *input == two {
        Some(1)
    } else if *input == three {
        Some(2)
    } else {
        None
    }
}

/// How many cards of each rank `hand` holds, indexed by ordinal.
pub fn rank_counts(hand: &Vec<Card>) -> (r: Vec<usize>)
    ensures
        r@.len() == 14,
        forall|k: int| 0 <= k < 14 ==> r@[k] == hand@.to_multiset().count(card_of(k)),
{
    let mut counts: Vec<usize> = vec![0; 14];
    let mut i: usize = 0;
    while i < hand.len()
        invariant
            i <= hand@.len(),
            counts@.len() == 14,
            forall|k: int|
                0 <= k < 14 ==> counts@[k] == hand@.subrange(0, i as int).to_multiset().count(
                    card_of(k),
                ),
        decreases hand@.len() - i,
    {
        let c = hand[i];
        let k = c.num_form() as usize;
        proof {
            assert(hand@.subrange(0, i + 1) =~= hand@.subrange(0, i as int).push(c));
            lemma_ordinal_card_of(c, k as int);
            assert forall|j: int| 0 <= j < 14 && j != k implies card_of(j) != c by {
                lemma_ordinal_card_of(c, j);
            }
            assert(hand@.subrange(0, i as int).to_multiset().count(c) <= i) by {
                assert(hand@.subrange(0, i as int).to_multiset().len() == i);
            }
        }
        counts.set(k, counts[k] + 1);
        i = i + 1;
    }
    assert(hand@.subrange(0, i as int) =~= hand@);
    counts
}

/// The phase of a total as a model reads it.
pub fn phase(total: i64) -> (r: i64)
    ensures
        r == phase_of(total as int),
{
    if total < 80 {
        -1
    } else if total < 90 {
        0
    } else {
        1
    }
}

impl Person {
    /// Plays the card that `input` ("1", "2" or "3") names; `None`, with the
    /// hand unchanged, for any other answer.
    pub fn play_card(&mut self, input: &String) -> (r: Option<Card>)
        requires
            old(self).hand@.len() >= CHOICES,
        ensures
            final(self).losses == old(self).losses,
            match selection_of(input@) {
                Some(k) => r == Some(old(self).hand@[k]) && final(self).hand@ == old(
                    self,
                ).hand@.remove(k),
                None => r is None && final(self).hand@ == old(self).hand@,
            },
    {
        match selection(input) {
            Some(k) => Some(self.hand.remove(k)),
            None => None,
        }
    }
}

impl BasicBot {
    /// Resets the order of preference to one chosen by chance among all
    /// orders of the fourteen ranks; always returns 0.
    pub fn randomize(&mut self) -> (r: i32)
        ensures
            r == 0,
            final(self).priorities@.len() == 14,
            final(self).priorities@.to_multiset() == Seq::new(14, |i: int| i as usize).to_multiset(),
            final(self).hand@ == old(self).hand@,
            final(self).losses == old(self).losses,
    {
        let mut order: Vec<usize> = Vec::new();
        let mut i: usize = 0;
        while i < 14
            invariant
                i <= 14,
                order@ == Seq::new(i as nat, |j: int| j as usize),
            decreases 14 - i,
        {
            order.push(i);
            i = i + 1;
            assert(order@ =~= Seq::new(i as nat, |j: int| j as usize));
        }
        shuffle_vec(&mut order);
        self.priorities = order;
        0
    }

    /// The position of the card this bot plays on `current_number`.
    pub fn choice(&self, current_number: i64) -> (r: usize)
        requires
            self.hand@.len() >= CHOICES,
            total_in_range(current_number as int),
        ensures
            r == heuristic_choice(self.priorities@, self.hand@, current_number as int),
            r < CHOICES,
    {
        preferred_position(&self.priorities, &self.hand, current_number, true)
    }

    /// Plays, on `current_number`, the first of its three leading cards that
    /// holds its most preferred rank and does not bust; the first card when
    /// every one would bust.
    pub fn play_card(&mut self, current_number: i64) -> (r: Card)
        requires
            old(self).hand@.len() >= CHOICES,
            total_in_range(current_number as int),
        ensures
            r == old(self).hand@[heuristic_choice(
                old(self).priorities@,
                old(self).hand@,
                current_number as int,
            )],
            final(self).hand@ == old(self).hand@.remove(
                heuristic_choice(old(self).priorities@, old(self).hand@, current_number as int),
            ),
            final(self).priorities@ == old(self).priorities@,
            final(self).losses == old(self).losses,
    {
        let h = self.choice(current_number);
        self.hand.remove(h)
    }

    /// Takes this bot's turn on `current_number` (see `play_card`).
    pub fn take_turn(&mut self, current_number: i64) -> (r: Card)
        requires
            old(self).hand@.len() >= CHOICES,
            total_in_range(current_number as int),
        ensures
            r == old(self).hand@[heuristic_choice(
                old(self).priorities@,
                old(self).hand@,
                current_number as int,
            )],
            final(self).hand@ == old(self).hand@.remove(
                heuristic_choice(old(self).priorities@, old(self).hand@, current_number as int),
            ),
            final(self).priorities@ == old(self).priorities@,
            final(self).losses == old(self).losses,
    {
        self.play_card(current_number)
    }
}

impl BotNod {
    /// The position of the card this bot plays, given the model's ranks from
    /// best to worst.
    pub fn choice(&self, ranking: &Vec<usize>) -> (r: usize)
        requires
            self.hand@.len() >= CHOICES,
        ensures
            r == ranked_choice(ranking@, self.hand@),
            r < CHOICES,
    {
        preferred_position(ranking, &self.hand, 0, false)
    }

    /// Plays the first of its three leading cards that holds the best ranked
    /// rank held there; the first card when none of the ranks is held.
    pub fn play_card(&mut self, ranking: &Vec<usize>) -> (r: Card)
        requires
            old(self).hand@.len() >= CHOICES,
        ensures
            r == old(self).hand@[ranked_choice(ranking@, old(self).hand@)],
            final(self).hand@ == old(self).hand@.remove(ranked_choice(ranking@, old(self).hand@)),
            final(self).brain == old(self).brain,
            final(self).losses == old(self).losses,
    {
        let h = self.choice(ranking);
        self.hand.remove(h)
    }
}

impl Player {
    pub fn hand(&self) -> (r: &Vec<Card>)
        ensures
            r@ == hand_of(*self),
    {
        match self {
            Player::Human(f) => &f.hand,
            Player::Bot(f) => &f.hand,
            Player::Nod(f) => &f.hand,
        }
    }

    /// Adds `card` at the end of the hand.
    pub fn take_card(&mut self, card: Card)
        ensures
            hand_of(*final(self)) == hand_of(*old(self)).push(card),
            losses_of(*final(self)) == losses_of(*old(self)),
            same_policy(*final(self), *old(self)),
    {
        match self {
            Player::Human(f) => f.hand.push(card),
            Player::Bot(f) => f.hand.push(card),
            Player::Nod(f) => f.hand.push(card),
        }
    }

    /// Removes and returns the card at `position` of the hand.
    pub fn discard_at(&mut self, position: usize) -> (r: Card)
        requires
            position < hand_of(*old(self)).len(),
        ensures
            r == hand_of(*old(self))[position as int],
            hand_of(*final(self)) == hand_of(*old(self)).remove(position as int),
            losses_of(*final(self)) == losses_of(*old(self)),
            same_policy(*final(self), *old(self)),
    {
        match self {
            Player::Human(f) => f.hand.remove(position),
            Player::Bot(f) => f.hand.remove(position),
            Player::Nod(f) => f.hand.remove(position),
        }
    }

    /// Gives a preference-order bot a new order chosen by chance; the other
    /// players have nothing to reshuffle.
    pub fn rand(&mut self)
        ensures
            hand_of(*final(self)) == hand_of(*old(self)),
            losses_of(*final(self)) == losses_of(*old(self)),
            match (*old(self), *final(self)) {
                (Player::Bot(_), Player::Bot(b)) => b.priorities@.to_multiset() == Seq::new(
                    14,
                    |i: int| i as usize,
                ).to_multiset(),
                (Player::Bot(_), _) => false,
                _ => same_policy(*final(self), *old(self)),
            },
    {
        match self {
            Player::Human(_) => {},
            Player::Bot(f) => {
                f.randomize();
            },
            Player::Nod(_) => {},
        }
    }

    /// Counts one more lost round.
    pub fn lose(&mut self)
        requires
            losses_of(*old(self)) < u32::MAX,
        ensures
            losses_of(*final(self)) == losses_of(*old(self)) + 1,
            hand_of(*final(self)) == hand_of(*old(self)),
            same_policy(*final(self), *old(self)),
    {
        match self {
            Player::Human(f) => f.losses = f.losses + 1,
            Player::Bot(f) => f.losses = f.losses + 1,
            Player::Nod(f) => f.losses = f.losses + 1,
        }
    }

    /// Empties the hand.
    pub fn clear_hand(&mut self)
        ensures
            hand_of(*final(self)) == Seq::<Card>::empty(),
            losses_of(*final(self)) == losses_of(*old(self)),
            same_policy(*final(self), *old(self)),
    {
        match self {
            Player::Human(f) => f.hand.clear(),
            Player::Bot(f) => f.hand.clear(),
            Player::Nod(f) => f.hand.clear(),
        }
    }

    /// The number of rounds this player has lost.
    pub fn loss_count(&self) -> (r: u32)
        ensures
            r == losses_of(*self),
    {
        match self {
            Player::Human(f) => f.losses,
            Player::Bot(f) => f.losses,
            Player::Nod(f) => f.losses,
        }
    }
}

} // verus!

//! The fourteen ranks and what each does to the running total.

use vstd::prelude::*;

verus! {

/// The highest total a play may leave without busting.
pub const CEILING: i64 = 99;

/// One playing card: ranks Ace through King, and the special One-Eye.
#[derive(Clone, Copy, Debug, PartialEq, Eq, Structural, Hash)]
pub enum Card {
    Ace,
    Two,
    Three,
    Four,
    Five,
    Six,
    Seven,
    Eight,
    Nine,
    Ten,
    Jack,
    Queen,
    King,
    OneEye,
}

/// The total after `c` is played on `total`.
pub open spec fn effect(c: Card, total: int) -> int {
    match c {
        Card::Ace => total + 1,
        Card::Two => total + 2,
        Card::Three => total + 3,
        Card::Four => total + 4,
        Card::Five => total + 5,
        Card::Six => total + 6,
        Card::Seven => total + 7,
        Card::Eight => total,
        Card::Nine => total,
        Card::Ten => total - 10,
        Card::Jack => total + 10,
        Card::Queen => total + 10,
        Card::King => total + 10,
        Card::OneEye => 99,
    }
}

/// The ordinal of a rank: One-Eye is 0, Ace 1, and so on up to King 13.
pub open spec fn ordinal(c: Card) -> int {
    match c {
        Card::OneEye => 0,
        Card::Ace => 1,
        Card::Two => 2,
        Card::Three => 3,
        Card::Four => 4,
        Card::Five => 5,
        Card::Six => 6,
        Card::Seven => 7,
        Card::Eight => 8,
        Card::Nine => 9,
        Card::Ten => 10,
        Card::Jack => 11,
        Card::Queen => 12,
        Card::King => 13,
    }
}

/// The rank whose ordinal is `k` (the inverse of `ordinal` on 0..14).
pub open spec fn card_of(k: int) -> Card {
    if k == 1 {
        Card::Ace
    } else if k == 2 {
        Card::Two
    } else if k == 3 {
        Card::Three
    } else if k == 4 {
        Card::Four
    } else if k == 5 {
        Card::Five
    } else if k == 6 {
        Card::Six
    } else if k == 7 {
        Card::Seven
    } else if k == 8 {
        Card::Eight
    } else if k == 9 {
        Card::Nine
    } else if k == 10 {
        Card::Ten
    } else if k == 11 {
        Card::Jack
    } else if k == 12 {
        Card::Queen
    } else if k == 13 {
        Card::King
    } else {
        Card::OneEye
    }
}

/// The name of a rank, as the game prints it.
pub open spec fn name_of(c: Card) -> Seq<char> {
    match c {
        Card::Ace => "Ace"@,
        Card::Two => "Two"@,
        Card::Three => "Three"@,
        Card::Four => "Four"@,
        Card::Five => "Five"@,
        Card::Six => "Six"@,
        Card::Seven => "Seven"@,
        Card::Eight => "Eight"@,
        Card::Nine => "Nine"@,
        Card::Ten => "Ten"@,
        Card::Jack => "Jack"@,
        Card::Queen => "Queen"@,
        Card::King => "King"@,
        Card::OneEye => "OneEye"@,
    }
}

/// A total on which every card's effect fits in an `i64`.
pub open spec fn total_in_range(total: int) -> bool {
    i64::MIN + 10 <= total && total <= i64::MAX - 10
}

/// `ordinal` and `card_of` are inverse to each other.
pub proof fn lemma_ordinal_card_of(c: Card, k: int)
    ensures
        0 <= ordinal(c) < 14,
        card_of(ordinal(c)) == c,
        0 <= k < 14 ==> ordinal(card_of(k)) == k,
{
}

/// One-Eye sets the total to the ceiling, whatever the total was.
pub proof fn lemma_one_eye_sets_ceiling(total: int)
    ensures
        effect(Card::OneEye, total) == 99,
{
}

impl Card {
    /// The total after this card is played on `number`.
    pub fn new_number(&self, number: i64) -> (r: i64)
        requires
            total_in_range(number as int),
        ensures
            r == effect(*self, number as int),
    {
        match self {
            Card::Ace => number + 1,
            Card::Two => number + 2,
            Card::Three => number + 3,
            Card::Four => number + 4,
            Card::Five => number + 5,
            Card::Six => number + 6,
            Card::Seven => number + 7,
            Card::Eight => number,
            Card::Nine => number,
            Card::Ten => number - 10,
            Card::Jack => number + 10,
            Card::Queen => number + 10,
            Card::King => number + 10,
            Card::OneEye => CEILING,
        }
    }

    /// The ordinal of this card's rank, in 0..14.
    pub fn num_form(&self) -> (r: i32)
        ensures
            r == ordinal(*self),
            0 <= r < 14,
    {
        match self {
            Card::Ace => 1,
            Card::Two => 2,
            Card::Three => 3,
            Card::Four => 4,
            Card::Five => 5,
            Card::Six => 6,
            Card::Seven => 7,
            Card::Eight => 8,
            Card::Nine => 9,
            Card::Ten => 10,
            Card::Jack => 11,
            Card::Queen => 12,
            Card::King => 13,
            Card::OneEye => 0,
        }
    }

    /// The card whose rank has ordinal `k`.
    pub fn from_ordinal(k: usize) -> (r: Card)
        requires
            k < 14,
        ensures
            r == card_of(k as int),
            ordinal(r) == k,
    {
        match k {
            1 => Card::Ace,
            2 => Card::Two,
            3 => Card::Three,
            4 => Card::Four,
            5 => Card::Five,
            6 => Card::Six,
            7 => Card::Seven,
            8 => Card::Eight,
            9 => Card::Nine,
            10 => Card::Ten,
            11 => Card::Jack,
            12 => Card::Queen,
            13 => Card::King,
            _ => Card::OneEye,
        }
    }

    /// The rank's name ("Ace", ..., "King", "OneEye").
    pub fn name(&self) -> (r: String)
        ensures
            r@ == name_of(*self),
    {
        let s = match self {
            Card::Ace => "Ace",
            Card::Two => "Two",
            Card::Three => "Three",
            Card::Four => "Four",
            Card::Five => "Five",
            Card::Six => "Six",
            Card::Seven => "Seven",
            Card::Eight => "Eight",
            Card::Nine => "Nine",
            Card::Ten => "Ten",
            Card::Jack => "Jack",
            Card::Queen => "Queen",
            Card::King => "King",
            Card::OneEye => "OneEye",
        };
        s.to_owned()
    }
}

} // verus!

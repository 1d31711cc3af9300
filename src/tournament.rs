//! The round-robin schedule that sets every member of one team against every
//! member of the other, and the tallies it reports.

use vstd::prelude::*;
use crate::player::{Player, losses_of};

verus! {

/// One round of a round-robin: which member of each team plays, and which of
/// the two (0: the first team's, 1: the second's) moves first.
#[derive(Clone, Copy, Debug, PartialEq, Eq, Structural)]
pub struct Fixture {
    pub home: usize,
    pub away: usize,
    pub first_player: usize,
}

/// The first `k` rounds between `i` and `j`: the starter alternates with the
/// parity of the round's index, the first team's member starting at even ones.
pub open spec fn games(i: usize, j: usize, k: int) -> Seq<Fixture> {
    Seq::new(k as nat, |m: int| Fixture { home: i, away: j, first_player: (m % 2) as usize })
}

/// The rounds of member `i` against the first `j` members of the second team.
pub open spec fn row(i: usize, j: int, g: int) -> Seq<Fixture>
    decreases j,
{
    if j <= 0 {
        Seq::empty()
    } else {
        row(i, j - 1, g) + games(i, (j - 1) as usize, g)
    }
}

/// The rounds of the first `i` members of the first team, in order.
pub open spec fn table(i: int, n2: int, g: int) -> Seq<Fixture>
    decreases i,
{
    if i <= 0 {
        Seq::empty()
    } else {
        table(i - 1, n2, g) + row((i - 1) as usize, n2, g)
    }
}

/// Who moves first in round `game` of a pairing.
pub fn first_player(game: usize) -> (r: usize)
    ensures
        r == game % 2,
{
    game % 2
}

/// Every round of a round-robin between teams of `team1` and `team2`
/// members with `num_games` rounds per pairing: member by member of the first
/// team, and for each, member by member of the second.
pub fn schedule(team1: usize, team2: usize, num_games: usize) -> (r: Vec<Fixture>)
    ensures
        r@ == table(team1 as int, team2 as int, num_games as int),
{
    let mut out: Vec<Fixture> = Vec::new();
    let mut i: usize = 0;
    while i < team1
        invariant
            i <= team1,
            out@ == table(i as int, team2 as int, num_games as int),
        decreases team1 - i,
    {
        let mut j: usize = 0;
        while j < team2
            invariant
                i < team1,
                j <= team2,
                out@ == table(i as int, team2 as int, num_games as int) + row(i, j as int, num_games as int),
            decreases team2 - j,
        {
            let mut k: usize = 0;
            while k < num_games
                invariant
                    i < team1,
                    j < team2,
                    k <= num_games,
                    out@ == table(i as int, team2 as int, num_games as int) + row(i, j as int, num_games as int)
                        + games(i, j, k as int),
                decreases num_games - k,
            {
                out.push(Fixture { home: i, away: j, first_player: first_player(k) });
                proof {
                    assert(games(i, j, k + 1) =~= games(i, j, k as int).push(
                        Fixture { home: i, away: j, first_player: (k % 2) as usize },
                    ));
                    assert(out@ =~= table(i as int, team2 as int, num_games as int) + row(i, j as int, num_games as int)
                        + games(i, j, k + 1));
                }
                k = k + 1;
            }
            proof {
                assert(out@ =~= table(i as int, team2 as int, num_games as int) + row(i, j + 1, num_games as int));
            }
            j = j + 1;
        }
        proof {
            assert(out@ =~= table(i + 1, team2 as int, num_games as int));
        }
        i = i + 1;
    }
    out
}

/// Moves the two members a fixture names out of their teams, as the players
/// of a two-player round: the first team's member at index 0.
pub fn seat(team1: &mut Vec<Player>, team2: &mut Vec<Player>, f: Fixture) -> (pair: Vec<Player>)
    requires
        f.home < old(team1)@.len(),
        f.away < old(team2)@.len(),
    ensures
        pair@ == seq![old(team1)@[f.home as int], old(team2)@[f.away as int]],
        final(team1)@ == old(team1)@.remove(f.home as int),
        final(team2)@ == old(team2)@.remove(f.away as int),
{
    let a = team1.remove(f.home);
    let b = team2.remove(f.away);
    vec![a, b]
}

/// Puts the players of a two-player round back in their teams, where `seat`
/// took them from.
pub fn unseat(team1: &mut Vec<Player>, team2: &mut Vec<Player>, f: Fixture, pair: Vec<Player>)
    requires
        pair@.len() == 2,
        f.home <= old(team1)@.len(),
        f.away <= old(team2)@.len(),
    ensures
        final(team1)@ == old(team1)@.insert(f.home as int, pair@[0]),
        final(team2)@ == old(team2)@.insert(f.away as int, pair@[1]),
{
    let mut pair = pair;
    let b = pair.pop().unwrap();
    let a = pair.pop().unwrap();
    team1.insert(f.home, a);
    team2.insert(f.away, b);
}

/// Each member's count of lost rounds, in team order.
pub fn loss_counts(team: &Vec<Player>) -> (r: Vec<usize>)
    ensures
        r@.len() == team@.len(),
        forall|i: int| 0 <= i < team@.len() ==> r@[i] == losses_of(team@[i]),
{
    let mut out: Vec<usize> = Vec::new();
    let mut i: usize = 0;
    while i < team.len()
        invariant
            i <= team@.len(),
            out@.len() == i,
            forall|m: int| 0 <= m < i ==> out@[m] == losses_of(team@[m]),
        decreases team@.len() - i,
    {
        out.push(team[i].loss_count() as usize);
        i = i + 1;
    }
    out
}

} // verus!

use nod99::card::Card;
use nod99::deck::{build_deck, empty_tally, shuffled_deck};
use nod99::player::{BasicBot, Person, Player};
use nod99::round::Round;
use nod99::tournament::{first_player, loss_counts, schedule, seat, unseat, Fixture};

fn person() -> Player {
    Player::Human(Person { hand: vec![], losses: 0 })
}

fn bot(priorities: Vec<usize>) -> Player {
    Player::Bot(BasicBot { hand: vec![], losses: 0, priorities })
}

fn hand_total(ps: &Vec<Player>) -> usize {
    ps.iter().map(|p| p.hand().len()).sum()
}

fn in_round(r: &Round, ps: &Vec<Player>) -> usize {
    hand_total(ps) + r.deck.len() + r.discard.iter().sum::<usize>()
}

/// Plays a round to its end with bots only; returns the loser.
fn run_bots(ps: &mut Vec<Player>, first: usize, deck: Vec<Card>) -> usize {
    let mut round = Round::deal(ps, first, deck).unwrap();
    loop {
        assert!(round.fits(ps));
        let pos = round.auto_position(ps).unwrap();
        if let Some(l) = round.play(ps, pos) {
            return l;
        }
    }
}

#[test]
fn no_players_no_round() {
    let mut ps: Vec<Player> = vec![];
    assert!(Round::deal(&mut ps, 0, build_deck()).is_none());
    assert!(ps.is_empty());
}

#[test]
fn dealing_three_each_in_player_order() {
    let mut ps = vec![person(), person()];
    ps[0].take_card(Card::Nine);
    let round = Round::deal(&mut ps, 1, build_deck()).unwrap();
    assert_eq!(ps[0].hand(), &vec![Card::Ace, Card::Three, Card::Five]);
    assert_eq!(ps[1].hand(), &vec![Card::Two, Card::Four, Card::Six]);
    assert_eq!(round.deck.len(), 46);
    assert_eq!(round.current, 1);
    assert_eq!(round.total, 0);
    assert_eq!(round.direction, 1);
    assert_eq!(round.discard, vec![0usize; 14]);
    assert_eq!(in_round(&round, &ps), 52);
}

#[test]
fn cards_are_conserved_until_a_recycle() {
    let mut ps = vec![bot(vec![13, 12, 11]), bot(vec![10, 9, 8]), bot(vec![1, 2, 3])];
    let mut round = Round::deal(&mut ps, 2, shuffled_deck()).unwrap();
    assert_eq!(round.deck.len(), 52 - 3 * 3);
    assert_eq!(in_round(&round, &ps), 52);
    for _ in 0..20 {
        let pos = round.auto_position(&ps).unwrap();
        let before = round.deck.len();
        let out = round.play(&mut ps, pos);
        if before > 1 || out.is_some() {
            assert_eq!(in_round(&round, &ps), 52);
        }
        if out.is_some() {
            break;
        }
    }
}

#[test]
fn end_to_end_fixed_deck() {
    let mut deck = vec![Card::Ace, Card::King, Card::OneEye, Card::Ace, Card::Five, Card::Five];
    deck.extend(build_deck());
    let mut ps = vec![person(), person()];
    let mut round = Round::deal(&mut ps, 0, deck).unwrap();
    assert_eq!(round.play(&mut ps, 0), None);
    assert_eq!(round.total, 1);
    assert_eq!(round.play(&mut ps, 0), None);
    assert_eq!(round.total, 11);
    assert_eq!(round.play(&mut ps, 0), None);
    assert_eq!(round.total, 99);
    assert_eq!(round.play(&mut ps, 0), Some(1));
    assert_eq!(round.total, 100);
    assert_eq!(round.loser, Some(1));
    assert_eq!(round.current, 1);
    assert_eq!(ps[1].loss_count(), 1);
    assert_eq!(ps[0].loss_count(), 0);
}

#[test]
fn eight_reverses_direction() {
    let mut deck = vec![Card::Two, Card::Three, Card::Four, Card::Eight, Card::Six, Card::Seven, Card::Nine, Card::Eight];
    deck.extend(build_deck());
    let mut ps = vec![person(), person(), person()];
    let mut round = Round::deal(&mut ps, 0, deck).unwrap();
    // player 0 holds Two, Eight, Nine
    assert_eq!(round.play(&mut ps, 1), None);
    assert_eq!(round.direction, -1);
    assert_eq!(round.total, 0);
    assert_eq!(round.current, 2);
    assert_eq!(round.discard[8], 1);
    assert_eq!(ps[2].hand().len(), 4);
    assert_eq!(round.play(&mut ps, 0), None);
    assert_eq!(round.direction, -1);
    assert_eq!(round.total, 4);
    assert_eq!(round.current, 1);
}

#[test]
fn recycling_refills_an_empty_pile() {
    let mut ps = vec![person(), person()];
    ps[0].take_card(Card::Two);
    ps[0].take_card(Card::Three);
    ps[0].take_card(Card::Four);
    ps[1].take_card(Card::Five);
    ps[1].take_card(Card::Six);
    let mut discard = empty_tally();
    discard[13] = 4;
    discard[10] = 3;
    let mut round = Round { deck: vec![Card::Nine], discard, total: 20, direction: 1, current: 0, num_players: 2, loser: None };
    assert_eq!(round.play(&mut ps, 0), None);
    assert_eq!(round.total, 22);
    assert_eq!(ps[1].hand(), &vec![Card::Five, Card::Six, Card::Nine]);
    assert_eq!(round.deck.len(), 8);
    assert!(!round.deck.is_empty());
    assert_eq!(round.deck.iter().filter(|c| **c == Card::Two).count(), 1);
    assert_eq!(round.deck.iter().filter(|c| **c == Card::King).count(), 4);
    assert_eq!(round.deck.iter().filter(|c| **c == Card::Ten).count(), 3);
}

#[test]
fn limits_are_checked() {
    let mut ps = vec![Player::Human(Person { hand: vec![Card::Ace, Card::Ace, Card::Ace], losses: u32::MAX })];
    let round = Round { deck: vec![Card::Nine], discard: empty_tally(), total: 0, direction: 1, current: 0, num_players: 1, loser: None };
    assert!(!round.fits(&ps));
    ps[0] = person();
    ps[0].take_card(Card::Ace);
    ps[0].take_card(Card::Ace);
    ps[0].take_card(Card::Ace);
    assert!(round.fits(&ps));
    assert_eq!(round.auto_position(&ps), None);
}

#[test]
fn single_player_draws_after_own_play() {
    let mut ps = vec![person()];
    let mut round = Round::deal(&mut ps, 0, build_deck()).unwrap();
    assert_eq!(round.play(&mut ps, 2), None);
    assert_eq!(round.current, 0);
    assert_eq!(ps[0].hand(), &vec![Card::Ace, Card::Two, Card::Four]);
}

#[test]
fn bots_finish_a_round_with_one_loser() {
    let mut ps = vec![bot(vec![13, 12, 11, 10]), bot(vec![0, 1, 2, 3])];
    let l = run_bots(&mut ps, 0, shuffled_deck());
    assert!(l < 2);
    assert_eq!(ps[l].loss_count(), 1);
    assert_eq!(ps[1 - l].loss_count(), 0);
}

#[test]
fn schedule_order_and_starters() {
    let s = schedule(2, 3, 2);
    assert_eq!(s.len(), 12);
    assert_eq!(s[0], Fixture { home: 0, away: 0, first_player: 0 });
    assert_eq!(s[1], Fixture { home: 0, away: 0, first_player: 1 });
    assert_eq!(s[2], Fixture { home: 0, away: 1, first_player: 0 });
    assert_eq!(s[6], Fixture { home: 1, away: 0, first_player: 0 });
    assert_eq!(s[11], Fixture { home: 1, away: 2, first_player: 1 });
    assert_eq!(first_player(7), 1);
    assert!(schedule(0, 3, 5).is_empty());
}

#[test]
fn seating_returns_players_to_their_places() {
    let mut t1 = vec![bot(vec![1]), bot(vec![2])];
    let mut t2 = vec![person(), bot(vec![3])];
    let f = Fixture { home: 1, away: 0, first_player: 0 };
    let pair = seat(&mut t1, &mut t2, f);
    assert_eq!(t1.len(), 1);
    assert!(matches!(pair[0], Player::Bot(ref b) if b.priorities == vec![2]));
    assert!(matches!(pair[1], Player::Human(_)));
    unseat(&mut t1, &mut t2, f, pair);
    assert!(matches!(t1[1], Player::Bot(ref b) if b.priorities == vec![2]));
    assert!(matches!(t2[0], Player::Human(_)));
}

#[test]
fn round_robin_of_singletons_counts_every_round_once() {
    let mut t1 = vec![bot(vec![11, 12, 13, 7, 6, 5, 4, 3, 2, 1, 0, 8, 9, 10])];
    let mut t2 = vec![bot(vec![0, 1, 2, 3, 4, 5, 6, 7, 8, 9, 10, 11, 12, 13])];
    for f in schedule(t1.len(), t2.len(), 10) {
        let mut pair = seat(&mut t1, &mut t2, f);
        run_bots(&mut pair, f.first_player, shuffled_deck());
        unseat(&mut t1, &mut t2, f, pair);
    }
    let a = loss_counts(&t1);
    let b = loss_counts(&t2);
    assert_eq!(a[0] + b[0], 10);
}

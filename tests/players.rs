use nod99::card::Card;
use nod99::player::{phase, preferred_position, rank_counts, selection, BasicBot, BotNod, Person, Player};

fn bot(hand: Vec<Card>, priorities: Vec<usize>) -> BasicBot {
    BasicBot { hand, losses: 0, priorities }
}

#[test]
fn heuristic_plays_preferred_two_before_ace() {
    let mut b = bot(vec![Card::Ace, Card::King, Card::Two], vec![2, 1, 13, 0, 3, 4, 5, 6, 7, 8, 9, 10, 11, 12]);
    assert_eq!(b.play_card(50), Card::Two);
    assert_eq!(b.hand, vec![Card::Ace, Card::King]);
}

#[test]
fn heuristic_skips_a_preferred_rank_that_would_bust() {
    let mut b = bot(vec![Card::King, Card::Ace, Card::Two], vec![13, 2, 1]);
    assert_eq!(b.take_turn(95), Card::Two);
    assert_eq!(b.hand, vec![Card::King, Card::Ace]);
}

#[test]
fn heuristic_plays_first_card_when_all_bust() {
    let mut b = bot(vec![Card::Queen, Card::King, Card::Jack], vec![11, 12, 13]);
    assert_eq!(b.play_card(95), Card::Queen);
    assert_eq!(b.hand, vec![Card::King, Card::Jack]);
}

#[test]
fn heuristic_looks_at_three_cards_only() {
    let mut b = bot(vec![Card::King, Card::King, Card::King, Card::Two], vec![2, 13]);
    assert_eq!(b.choice(10), 0);
    assert_eq!(b.play_card(10), Card::King);
}

#[test]
fn randomize_gives_a_permutation_of_the_ranks() {
    let mut b = bot(vec![Card::Ace], vec![]);
    assert_eq!(b.randomize(), 0);
    let mut p = b.priorities.clone();
    p.sort();
    assert_eq!(p, (0..14).collect::<Vec<usize>>());
    assert_eq!(b.hand, vec![Card::Ace]);
}

#[test]
fn model_bot_plays_best_ranked_held_rank() {
    let mut n = BotNod { hand: vec![Card::Five, Card::OneEye, Card::Ten], losses: 0, brain: 0 };
    let ranking = vec![7, 10, 0, 5];
    assert_eq!(n.choice(&ranking), 2);
    assert_eq!(n.play_card(&ranking), Card::Ten);
    assert_eq!(n.hand, vec![Card::Five, Card::OneEye]);
}

#[test]
fn model_bot_falls_back_to_first_card() {
    let mut n = BotNod { hand: vec![Card::Five, Card::OneEye, Card::Ten], losses: 0, brain: 3 };
    assert_eq!(n.play_card(&vec![1, 2, 3]), Card::Five);
}

#[test]
fn safe_only_scan_matches_model_scan_when_nothing_busts() {
    let hand = vec![Card::Two, Card::Three, Card::Four];
    assert_eq!(preferred_position(&vec![4, 3], &hand, 10, true), 2);
    assert_eq!(preferred_position(&vec![4, 3], &hand, 10, false), 2);
}

#[test]
fn person_answers() {
    assert_eq!(selection(&"1".to_string()), Some(0));
    assert_eq!(selection(&"3".to_string()), Some(2));
    assert_eq!(selection(&"4".to_string()), None);
    assert_eq!(selection(&"".to_string()), None);
    let mut p = Person { hand: vec![Card::Ace, Card::Two, Card::Three], losses: 0 };
    assert_eq!(p.play_card(&"x".to_string()), None);
    assert_eq!(p.hand.len(), 3);
    assert_eq!(p.play_card(&"2".to_string()), Some(Card::Two));
    assert_eq!(p.hand, vec![Card::Ace, Card::Three]);
}

#[test]
fn counts_and_phase() {
    let c = rank_counts(&vec![Card::Ace, Card::OneEye, Card::Ace, Card::King]);
    assert_eq!(c[1], 2);
    assert_eq!(c[0], 1);
    assert_eq!(c[13], 1);
    assert_eq!(c.iter().sum::<usize>(), 4);
    assert_eq!(phase(79), -1);
    assert_eq!(phase(80), 0);
    assert_eq!(phase(89), 0);
    assert_eq!(phase(90), 1);
}

#[test]
fn player_bookkeeping() {
    let mut p = Player::Human(Person { hand: vec![], losses: 4 });
    p.take_card(Card::Nine);
    p.take_card(Card::Ace);
    assert_eq!(p.hand(), &vec![Card::Nine, Card::Ace]);
    assert_eq!(p.discard_at(0), Card::Nine);
    p.lose();
    assert_eq!(p.loss_count(), 5);
    p.clear_hand();
    assert!(p.hand().is_empty());
    p.rand();
    assert_eq!(p.loss_count(), 5);
    let mut b = Player::Bot(bot(vec![], vec![1]));
    b.rand();
    match b {
        Player::Bot(x) => assert_eq!(x.priorities.len(), 14),
        _ => panic!("kind changed"),
    }
}

use std::collections::{HashMap, HashSet};
use std::iter;

use rand::{Error, RngCore};
use rsjack::deck::{standard_cards, DECK_SIZE};
use rsjack::{Card, Deck, Hand, Rank, Suit};

/// A simple RNG that intentionally does not generate very random output (i.e. for testing).
struct CountingRng(u64);

impl RngCore for CountingRng {
    fn next_u32(&mut self) -> u32 {
        self.next_u64() as u32
    }

    fn next_u64(&mut self) -> u64 {
        self.0 += 1;
        self.0
    }

    fn fill_bytes(&mut self, _dest: &mut [u8]) {
        panic!("Not implemented")
    }

    fn try_fill_bytes(&mut self, dest: &mut [u8]) -> Result<(), Error> {
        self.fill_bytes(dest);
        Ok(())
    }
}

fn counts(cards: &[Card]) -> HashMap<Card, usize> {
    let mut seen = HashMap::new();
    for card in cards {
        *seen.entry(*card).or_insert(0) += 1;
    }
    seen
}

fn sorted(cards: &[Card]) -> Vec<(u8, u8)> {
    let mut keys: Vec<(u8, u8)> = cards.iter().map(|c| (*c.rank as u8, *c.suit as u8)).collect();
    keys.sort();
    keys
}

#[test]
fn new_deck_single_has_52_cards() {
    let mut rand = CountingRng(0);
    let mut deck = Deck::new(1, &mut rand);

    let full = iter::repeat_with(|| deck.draw()).take(52);
    let uniq = HashSet::<Card>::from_iter(full);
    assert_eq!(uniq.len(), 52);
}

#[test]
fn new_deck_double_has_104_cards() {
    let mut rand = CountingRng(0);
    let mut deck = Deck::new(2, &mut rand);

    let full = iter::repeat_with(|| deck.draw()).take(104);
    let uniq = HashSet::<Card>::from_iter(full);
    assert_eq!(uniq.len(), 52);
}

#[test]
fn deck_discard() {
    let mut rand = CountingRng(0);
    let mut deck = Deck::new(1, &mut rand);
    let mut hands = Hand::new();

    for _ in 0..4 {
        hands.add(deck.draw());
    }
    assert_eq!(hands.cards().len(), 4);

    deck.discard(&mut hands);
    assert_eq!(hands.cards().len(), 0);

    let full = iter::repeat_with(|| deck.draw()).take(52);
    let uniq = HashSet::<Card>::from_iter(full);
    assert_eq!(uniq.len(), 52);
}

#[test]
fn standard_cards_single_deck_order() {
    let cards = standard_cards(1);
    assert_eq!(DECK_SIZE, 52);
    assert_eq!(cards.len(), 52);
    assert_eq!(cards[0], Card::new(&Rank::Two, &Suit::Clubs));
    assert_eq!(cards[1], Card::new(&Rank::Two, &Suit::Diamonds));
    assert_eq!(cards[2], Card::new(&Rank::Two, &Suit::Hearts));
    assert_eq!(cards[3], Card::new(&Rank::Two, &Suit::Spades));
    assert_eq!(cards[4], Card::new(&Rank::Three, &Suit::Clubs));
    assert_eq!(cards[35], Card::new(&Rank::Ten, &Suit::Spades));
    assert_eq!(cards[36], Card::new(&Rank::Jack, &Suit::Clubs));
    assert_eq!(cards[51], Card::new(&Rank::Ace, &Suit::Spades));
    for (i, card) in cards.iter().enumerate() {
        assert_eq!(*card.rank as usize, i / 4);
        assert_eq!(*card.suit as usize, i % 4);
    }
}

#[test]
fn standard_cards_repeats_the_deck() {
    let one = standard_cards(1);
    let three = standard_cards(3);
    assert_eq!(three.len(), 156);
    for (i, card) in three.iter().enumerate() {
        assert_eq!(*card, one[i % 52]);
    }
}

#[test]
fn new_deck_deals_each_card_once_per_deck() {
    for decks in [1usize, 2, 6] {
        let mut rand = CountingRng(0);
        let mut deck = Deck::new(decks, &mut rand);
        let drawn: Vec<Card> = iter::repeat_with(|| deck.draw()).take(52 * decks).collect();
        assert_eq!(drawn.len(), 52 * decks);
        let seen = counts(&drawn);
        assert_eq!(seen.len(), 52);
        for card in standard_cards(1) {
            assert_eq!(seen[&card], decks);
        }
    }
}

#[test]
fn new_deck_never_repeats_a_card_more_than_decks_times() {
    let mut rand = CountingRng(7);
    let mut deck = Deck::new(2, &mut rand);
    let mut drawn = Vec::new();
    for _ in 0..104 {
        drawn.push(deck.draw());
        assert!(counts(&drawn).values().all(|n| *n <= 2));
    }
}

#[test]
fn first_draw_shuffles_the_new_deck() {
    let mut rand = CountingRng(0);
    let mut deck = Deck::new(1, &mut rand);
    let drawn: Vec<Card> = iter::repeat_with(|| deck.draw()).take(52).collect();
    let factory = standard_cards(1);
    assert_ne!(drawn, factory);
    assert_eq!(sorted(&drawn), sorted(&factory));
}

#[test]
fn deck_round_trip_never_runs_out() {
    let mut rand = CountingRng(0);
    let mut deck = Deck::new(1, &mut rand);
    let mut hand = Hand::new();
    for _ in 0..52 {
        hand.add(deck.draw());
    }
    let first = hand.cards().clone();
    deck.discard(&mut hand);
    assert_eq!(hand.cards().len(), 0);
    for _ in 0..52 {
        hand.add(deck.draw());
    }
    assert_eq!(hand.cards().len(), 52);
    assert_eq!(sorted(hand.cards()), sorted(&first));
    assert_eq!(sorted(hand.cards()), sorted(&standard_cards(1)));
}

#[test]
fn deck_discard_of_empty_hand_changes_nothing() {
    let mut rand_a = CountingRng(3);
    let mut rand_b = CountingRng(3);
    let mut a = Deck::new(1, &mut rand_a);
    let mut b = Deck::new(1, &mut rand_b);
    let mut empty = Hand::new();
    for _ in 0..52 {
        a.discard(&mut empty);
        assert_eq!(empty.cards().len(), 0);
        assert_eq!(a.draw(), b.draw());
    }
}

#[test]
fn deck_draws_are_reproducible() {
    let mut rand_a = CountingRng(0);
    let mut rand_b = CountingRng(0);
    let mut a = Deck::new(2, &mut rand_a);
    let mut b = Deck::new(2, &mut rand_b);
    let mut hand_a = Hand::new();
    let mut hand_b = Hand::new();
    let mut drawn_a = Vec::new();
    let mut drawn_b = Vec::new();
    for round in 0..40 {
        for _ in 0..(round % 7 + 2) {
            let card_a = a.draw();
            let card_b = b.draw();
            hand_a.add(card_a);
            hand_b.add(card_b);
            drawn_a.push(card_a);
            drawn_b.push(card_b);
        }
        a.discard(&mut hand_a);
        b.discard(&mut hand_b);
    }
    assert_eq!(drawn_a.len(), 40 * 2 + (0..40).map(|r| r % 7).sum::<usize>());
    assert_eq!(drawn_a, drawn_b);
}

#[test]
fn deck_draws_depend_on_the_random_source() {
    let mut rand_a = CountingRng(0);
    let mut rand_b = CountingRng(3_000_000_000);
    let mut a = Deck::new(1, &mut rand_a);
    let mut b = Deck::new(1, &mut rand_b);
    let drawn_a: Vec<Card> = iter::repeat_with(|| a.draw()).take(52).collect();
    let drawn_b: Vec<Card> = iter::repeat_with(|| b.draw()).take(52).collect();
    assert_ne!(drawn_a, drawn_b);
    assert_eq!(sorted(&drawn_a), sorted(&drawn_b));
}

#[test]
fn deck_keeps_its_order_while_discard_is_no_larger_than_draw() {
    let mut rand_a = CountingRng(0);
    let mut rand_b = CountingRng(0);
    let mut played = Deck::new(1, &mut rand_a);
    let mut untouched = Deck::new(1, &mut rand_b);
    let mut hand = Hand::new();

    for _ in 0..10 {
        hand.add(played.draw());
        untouched.draw();
    }
    // 10 cards go back and 42 are left to draw. No reshuffle is due until
    // fewer than 10 are left, so the next 33 draws come out as they lay.
    played.discard(&mut hand);
    for _ in 0..33 {
        assert_eq!(played.draw(), untouched.draw());
    }
}

#[test]
fn deck_reshuffles_what_is_left_once_discard_is_larger_than_draw() {
    let mut rand_a = CountingRng(0);
    let mut rand_b = CountingRng(0);
    let mut played = Deck::new(1, &mut rand_a);
    let mut untouched = Deck::new(1, &mut rand_b);
    let mut hand = Hand::new();

    for _ in 0..10 {
        hand.add(played.draw());
        untouched.draw();
    }
    let returned = hand.cards().clone();
    played.discard(&mut hand);
    for _ in 0..33 {
        played.draw();
        untouched.draw();
    }
    // 10 in discard, 9 to draw: the next draw shuffles these 19 together,
    // the discard pile in front.
    let mut pool = returned.clone();
    pool.extend(iter::repeat_with(|| untouched.draw()).take(9));
    let again: Vec<Card> = iter::repeat_with(|| played.draw()).take(19).collect();
    assert_eq!(sorted(&again), sorted(&pool));
    // This generator makes the shuffle move the front of the pool to its end.
    let mut expected = pool[1..].to_vec();
    expected.push(pool[0]);
    assert_eq!(again, expected);
}

#[test]
fn deck_reshuffle_puts_the_discard_pile_before_the_draw_pile() {
    // This generator makes the shuffle pick the front element every time,
    // which moves the front of the pool to its end and keeps the rest in
    // order: the first card out is the second card of the pool.
    let mut rand = CountingRng(0);
    let mut deck = Deck::new(1, &mut rand);
    let factory = standard_cards(1);
    let mut hand = Hand::new();
    let first: Vec<Card> = iter::repeat_with(|| deck.draw()).take(52).collect();
    let mut expected = factory[1..].to_vec();
    expected.push(factory[0]);
    assert_eq!(first, expected);

    for card in first[..3].iter() {
        hand.add(*card);
    }
    deck.discard(&mut hand);
    // Discard holds three cards and draw none: the pool is those three.
    let second: Vec<Card> = iter::repeat_with(|| deck.draw()).take(3).collect();
    assert_eq!(second, vec![first[1], first[2], first[0]]);
}

#[test]
fn deck_reshuffles_draw_and_discard_together_once_discard_is_larger() {
    let mut rand = CountingRng(0);
    let mut deck = Deck::new(1, &mut rand);
    let mut hand = Hand::new();

    for _ in 0..27 {
        hand.add(deck.draw());
    }
    // 27 in discard, 25 to draw: the next draw shuffles all 52 together.
    deck.discard(&mut hand);
    let all: Vec<Card> = iter::repeat_with(|| deck.draw()).take(52).collect();
    assert_eq!(sorted(&all), sorted(&standard_cards(1)));
}

#[test]
fn deck_and_hands_always_hold_every_card() {
    let mut rand = CountingRng(11);
    let mut deck = Deck::new(1, &mut rand);
    let mut player = Hand::new();
    let mut dealer = Hand::new();
    let mut out = 0;
    for round in 0..30 {
        for _ in 0..(round % 5 + 1) {
            player.add(deck.draw());
            dealer.add(deck.draw());
            out += 2;
        }
        assert_eq!(player.cards().len() + dealer.cards().len(), out);
        assert!(counts(player.cards()).values().all(|n| *n == 1));
        for card in player.cards() {
            assert!(!dealer.cards().contains(card));
        }
        deck.discard(&mut player);
        deck.discard(&mut dealer);
        out = 0;
    }
    let all: Vec<Card> = iter::repeat_with(|| deck.draw()).take(52).collect();
    assert_eq!(sorted(&all), sorted(&standard_cards(1)));
}

#[test]
fn new_deck_leaves_the_random_source_alone() {
    let mut rand = CountingRng(41);
    {
        let _deck = Deck::new(3, &mut rand);
    }
    assert_eq!(rand.0, 41);
}

#[test]
fn draw_without_reshuffle_and_discard_leave_the_random_source_alone() {
    let mut once = CountingRng(0);
    {
        let mut deck = Deck::new(1, &mut once);
        deck.draw();
    }
    assert_ne!(once.0, 0);

    let mut often = CountingRng(0);
    {
        let mut deck = Deck::new(1, &mut often);
        let mut hand = Hand::new();
        // The first draw shuffles; the next 25 find a draw pile that is no
        // smaller than the discard pile, also after the discard.
        for _ in 0..16 {
            hand.add(deck.draw());
        }
        deck.discard(&mut hand);
        for _ in 0..10 {
            hand.add(deck.draw());
        }
    }
    assert_eq!(often.0, once.0);
}

#[test]
fn draw_with_reshuffle_uses_the_random_source() {
    let mut rand = CountingRng(0);
    {
        let mut deck = Deck::new(1, &mut rand);
        deck.draw();
    }
    let after_first = rand.0;
    let mut again = CountingRng(0);
    {
        let mut deck = Deck::new(1, &mut again);
        let mut hand = Hand::new();
        for _ in 0..27 {
            hand.add(deck.draw());
        }
        deck.discard(&mut hand);
        deck.draw();
    }
    assert!(again.0 > after_first);
}

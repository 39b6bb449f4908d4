//! The shoe: a draw pile, a discard pile, and the reshuffle between them.

use std::collections::VecDeque;
use rand::seq::SliceRandom;
use rand::RngCore;
use vstd::multiset::Multiset;
use vstd::prelude::*;
use vstd::seq_lib::lemma_multiset_commutative;
use crate::card::{Card, Rank, Suit, RANKS, SUITS};
use crate::hand::Hand;

verus! {

/// Number of cards in one deck.
pub const DECK_SIZE: usize = 52;

/// The card at position `i` of a new single deck: ranks ascend from the two
/// to the ace, and within a rank the suits run from clubs to spades.
pub open spec fn card_at(i: int) -> Card {
    Card { rank: &Rank::of_ordinal(i / 4), suit: &Suit::of_ordinal(i % 4) }
}

/// The cards of `decks` new decks, one whole deck after the other.
pub open spec fn full_deck(decks: nat) -> Seq<Card> {
    Seq::new(52 * decks, |i: int| card_at(i % 52))
}

/// What a deck holds: its two piles of cards.
#[verifier::ext_equal]
pub struct Piles {
    /// Cards yet to be drawn; the front card is drawn next.
    pub draw: Seq<Card>,
    /// Cards returned from earlier rounds.
    pub discard: Seq<Card>,
}

impl Piles {
    /// The piles of a deck made of `decks` new decks: nothing to draw yet,
    /// every card in the discard pile.
    pub open spec fn fresh(decks: nat) -> Piles {
        Piles { draw: Seq::empty(), discard: full_deck(decks) }
    }

    /// Number of cards in both piles together.
    pub open spec fn len(self) -> nat {
        self.draw.len() + self.discard.len()
    }

    /// The cards of both piles together, each as often as it occurs.
    pub open spec fn cards(self) -> Multiset<Card> {
        self.draw.to_multiset().add(self.discard.to_multiset())
    }

    /// Whether the next draw reshuffles: the discard pile has outgrown the
    /// draw pile.
    pub open spec fn shuffle_due(self) -> bool {
        self.discard.len() > self.draw.len()
    }

    /// The pool that a reshuffle permutes: the discard pile followed by what
    /// is left of the draw pile.
    pub open spec fn pool(self) -> Seq<Card> {
        self.discard + self.draw
    }

    /// Whether drawing from these piles can give `card` and leave `next`.
    ///
    /// Without a reshuffle the front card of the draw pile comes out and
    /// nothing else moves. With one, the drawn card followed by the new draw
    /// pile is some rearrangement of the pool, and the discard pile is empty.
    /// No draw is possible from two empty piles.
    pub open spec fn draws(self, card: Card, next: Piles) -> bool {
        if self.shuffle_due() {
            &&& (seq![card] + next.draw).to_multiset() == self.pool().to_multiset()
            &&& next.discard == Seq::<Card>::empty()
        } else {
            &&& self.draw.len() > 0
            &&& card == self.draw.first()
            &&& next.draw == self.draw.drop_first()
            &&& next.discard == self.discard
        }
    }

    /// The piles after the cards of `hand` went to the discard pile.
    pub open spec fn discards(self, hand: Seq<Card>) -> Piles {
        Piles { draw: self.draw, discard: self.discard + hand }
    }
}

/// Encompasses both the deck to draw cards and a discard pile.
///
/// The deck borrows its random number generator, of type `R`, for as long as
/// it lives, and uses it for nothing but its reshuffles.
pub struct Deck<'a, R> {
    /// Cards yet to be drawn.
    draw: VecDeque<Card>,
    /// Discard pile of cards from previous rounds.
    discard: Vec<Card>,
    /// Used to shuffle the deck of cards.
    random: &'a mut R,
}

impl<'a, R> View for Deck<'a, R> {
    type V = Piles;

    /// The two piles, front card first.
    closed spec fn view(&self) -> Piles {
        Piles { draw: self.draw@, discard: self.discard@ }
    }
}

/// Builds the cards of `decks` new decks in the order of [`full_deck`].
pub fn standard_cards(decks: usize) -> (cards: Vec<Card>)
    requires
        decks >= 1,
        DECK_SIZE * decks <= usize::MAX,
    ensures
        cards@ == full_deck(decks as nat),
{
    let mut cards: Vec<Card> = Vec::with_capacity(decks * RANKS * SUITS);
    let mut deck: usize = 0;
    while deck < decks
        invariant
            deck <= decks,
            DECK_SIZE * decks <= usize::MAX,
            cards@.len() == DECK_SIZE * deck,
            forall|i: int| 0 <= i < cards@.len() ==> cards@[i] == card_at(i % 52),
        decreases decks - deck,
    {
        let mut rank: usize = 0;
        while rank < RANKS
            invariant
                deck < decks,
                rank <= RANKS,
                DECK_SIZE * decks <= usize::MAX,
                cards@.len() == DECK_SIZE * deck + SUITS * rank,
                forall|i: int| 0 <= i < cards@.len() ==> cards@[i] == card_at(i % 52),
            decreases RANKS - rank,
        {
            let mut suit: usize = 0;
            while suit < SUITS
                invariant
                    deck < decks,
                    rank < RANKS,
                    suit <= SUITS,
                    DECK_SIZE * decks <= usize::MAX,
                    cards@.len() == DECK_SIZE * deck + SUITS * rank + suit,
                    forall|i: int| 0 <= i < cards@.len() ==> cards@[i] == card_at(i % 52),
                decreases SUITS - suit,
            {
                cards.push(Card::new(Rank::from_ordinal(rank), Suit::from_ordinal(suit)));
                suit += 1;
            }
            rank += 1;
        }
        deck += 1;
    }
    cards
}

/// Rearranges `cards` with `rand::seq::SliceRandom::shuffle`, which draws its
/// choices from `random`.
///
/// The shuffle walks the slice from its back and swaps each element with one
/// at a random position not behind it. It does nothing else to the slice, so
/// afterwards the vector holds the same cards, each as often as before: that
/// is all the contract claims. Which order comes out is the generator's
/// business. The positions the shuffle asks for are always within the slice,
/// so the call cannot fail by itself; it returns whenever the generator keeps
/// answering.
#[verifier::external_body]
fn shuffle_cards<R: RngCore>(cards: &mut Vec<Card>, random: &mut R)
    ensures
        final(cards)@.to_multiset() == old(cards)@.to_multiset(),
{
    cards.shuffle(random);
}

impl<'a, R> Deck<'a, R> {
    /// The random number generator that the deck borrows, as it stands.
    pub closed spec fn source(&self) -> R {
        *self.random
    }

    /// Creates a new deck of cards, all of them in the discard pile, so that
    /// the first draw shuffles them.
    ///
    /// For BlackJack, typically a few decks are used (~6) to reduce the
    /// ability to card count. `decks` must be at least 1.
    ///
    /// # Examples
    ///
    /// ```
    /// use rsjack::Deck;
    /// use rand;
    ///
    /// let deck = Deck::new(6, &mut rand::thread_rng());
    /// ```
    pub fn new(decks: usize, random: &'a mut R) -> (deck: Self)
        requires
            decks >= 1,
            DECK_SIZE * decks <= usize::MAX,
        ensures
            deck@ == Piles::fresh(decks as nat),
            deck.source() == *old(random),
    {
        Self { draw: VecDeque::new(), discard: standard_cards(decks), random }
    }

    /// Moves what is left of the draw pile to the end of the discard pile.
    fn gather(&mut self)
        ensures
            final(self).discard@ == old(self)@.pool(),
            final(self).draw@ == Seq::<Card>::empty(),
    {
        while self.draw.len() > 0
            invariant
                self.discard@ + self.draw@ == old(self).discard@ + old(self).draw@,
            decreases self.draw@.len(),
        {
            let card = self.draw.pop_front().unwrap();
            self.discard.push(card);
        }
    }

    /// Moves the whole discard pile, in its order, into the empty draw pile.
    fn restock(&mut self)
        requires
            old(self).draw@.len() == 0,
        ensures
            final(self).draw@ == old(self).discard@,
            final(self).discard@ == Seq::<Card>::empty(),
    {
        let mut i: usize = 0;
        while i < self.discard.len()
            invariant
                i <= self.discard@.len(),
                self.discard@ == old(self).discard@,
                self.draw@ == self.discard@.take(i as int),
            decreases self.discard@.len() - i,
        {
            self.draw.push_back(self.discard[i]);
            i += 1;
        }
        self.discard.clear();
    }

    /// Discards a hand of cards: they go to the end of the discard pile in
    /// the order of the hand, which is left empty. The random number
    /// generator is not touched.
    pub fn discard(&mut self, hand: &mut Hand)
        ensures
            final(self)@ == old(self)@.discards(old(hand)@),
            final(self)@.cards() == old(self)@.cards().add(old(hand)@.to_multiset()),
            final(self).source() == old(self).source(),
            final(hand)@ == Seq::<Card>::empty(),
    {
        let cards = hand.cards();
        let mut i: usize = 0;
        while i < cards.len()
            invariant
                i <= cards@.len(),
                cards@ == old(hand)@,
                self.draw@ == old(self).draw@,
                self.discard@ == old(self).discard@ + cards@.take(i as int),
                self.source() == old(self).source(),
            decreases cards@.len() - i,
        {
            self.discard.push(cards[i]);
            i += 1;
        }
        proof {
            lemma_discard_returns_cards(old(self)@, old(hand)@);
        }
        hand.clear();
    }
}

impl<'a, R: RngCore> Deck<'a, R> {
    /// Draws a card.
    ///
    /// If the discard pile is sufficiently large, shuffles it into the deck:
    /// once it holds more cards than the draw pile, both piles are shuffled
    /// together and become the new draw pile. The card then comes off the
    /// front of the draw pile. The deck must hold a card. A draw that does
    /// not shuffle leaves the random number generator as it was.
    pub fn draw(&mut self) -> (card: Card)
        requires
            old(self)@.len() >= 1,
        ensures
            old(self)@.draws(card, final(self)@),
            old(self)@.cards() == final(self)@.cards().insert(card),
            old(self)@.len() == final(self)@.len() + 1,
            !old(self)@.shuffle_due() ==> final(self).source() == old(self).source(),
    {
        if self.discard.len() > self.draw.len() {
            self.gather();
            shuffle_cards(&mut self.discard, self.random);
            proof {
                old(self)@.pool().to_multiset_ensures();
                self.discard@.to_multiset_ensures();
            }
            self.restock();
        }
        let ghost pile = self.draw@;
        let card = self.draw.pop_front().unwrap();
        proof {
            assert(seq![card] + self.draw@ == pile);
            lemma_draw_takes_one_card(old(self)@, card, self@);
        }
        card
    }
}

/// An empty pile holds no card.
pub(crate) proof fn lemma_empty_pile_holds_nothing(pile: Seq<Card>)
    requires
        pile.len() == 0,
    ensures
        pile.to_multiset() == Multiset::<Card>::empty(),
{
    pile.to_multiset_ensures();
    vstd::multiset::lemma_multiset_empty_len(pile.to_multiset());
}

/// A single card, as a pile, holds just that card.
proof fn lemma_single_card_pile(card: Card)
    ensures
        seq![card].to_multiset() == Multiset::<Card>::empty().insert(card),
{
    let none = Seq::<Card>::empty();
    none.to_multiset_ensures();
    lemma_empty_pile_holds_nothing(none);
    assert(none.push(card) == seq![card]);
}

/// A draw takes exactly one card out of the piles, the one it gives, and can
/// only happen while the piles hold a card.
pub proof fn lemma_draw_takes_one_card(piles: Piles, card: Card, next: Piles)
    requires
        piles.draws(card, next),
    ensures
        piles.cards() == next.cards().insert(card),
        piles.len() == next.len() + 1,
{
    broadcast use vstd::multiset::group_multiset_axioms;

    let drawn = seq![card];
    assert((drawn + next.draw).to_multiset() =~= next.draw.to_multiset().insert(card)) by {
        lemma_single_card_pile(card);
        lemma_multiset_commutative(drawn, next.draw);
    }
    if piles.shuffle_due() {
        assert(piles.pool().to_multiset() =~= piles.cards()) by {
            lemma_multiset_commutative(piles.discard, piles.draw);
        }
        assert(next.cards() =~= next.draw.to_multiset()) by {
            lemma_empty_pile_holds_nothing(next.discard);
        }
        (drawn + next.draw).to_multiset_ensures();
        piles.pool().to_multiset_ensures();
    } else {
        assert(drawn + next.draw == piles.draw);
        assert(piles.cards() =~= next.cards().insert(card));
    }
}

/// A draw is possible from any piles that hold a card.
pub proof fn lemma_draw_is_possible(piles: Piles)
    requires
        piles.len() >= 1,
    ensures
        exists|card: Card, next: Piles| piles.draws(card, next),
{
    let from = if piles.shuffle_due() {
        piles.pool()
    } else {
        piles.draw
    };
    let next = Piles {
        draw: from.drop_first(),
        discard: if piles.shuffle_due() {
            Seq::empty()
        } else {
            piles.discard
        },
    };
    assert(seq![from.first()] + from.drop_first() == from);
    assert(piles.draws(from.first(), next));
}

/// A draw is determined by the piles it starts from and, where a reshuffle
/// is due, by the order in which the reshuffle leaves the pool: two draws
/// from the same piles that meet the same order give the same card and leave
/// the same piles.
pub proof fn lemma_draw_is_determined_by_order(
    piles: Piles,
    card1: Card,
    next1: Piles,
    card2: Card,
    next2: Piles,
)
    requires
        piles.draws(card1, next1),
        piles.draws(card2, next2),
        piles.shuffle_due() ==> seq![card1] + next1.draw == seq![card2] + next2.draw,
    ensures
        card1 == card2,
        next1 == next2,
{
    if piles.shuffle_due() {
        let order = seq![card1] + next1.draw;
        assert(order[0] == card1);
        assert(order[0] == card2);
        assert(order.drop_first() == next1.draw);
        assert(order.drop_first() == next2.draw);
    }
}

/// A discard adds exactly the cards of the hand to the piles.
pub proof fn lemma_discard_returns_cards(piles: Piles, hand: Seq<Card>)
    ensures
        piles.discards(hand).cards() == piles.cards().add(hand.to_multiset()),
        piles.discards(hand).len() == piles.len() + hand.len(),
{
    broadcast use vstd::multiset::group_multiset_axioms;

    lemma_multiset_commutative(piles.discard, hand);
    assert(piles.discards(hand).cards() =~= piles.cards().add(hand.to_multiset()));
}

} // verus!

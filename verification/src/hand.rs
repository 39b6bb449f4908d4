//! Hands of cards and their scoring.

use vstd::prelude::*;
use crate::card::Card;

verus! {

/// Sum of the cards' points with every ace counted low: the hard total.
pub open spec fn hard_total(cards: Seq<Card>) -> nat
    decreases cards.len(),
{
    if cards.len() == 0 {
        0
    } else {
        hard_total(cards.drop_last()) + cards.last().points()
    }
}

/// Number of aces among the cards.
pub open spec fn ace_count(cards: Seq<Card>) -> nat
    decreases cards.len(),
{
    if cards.len() == 0 {
        0
    } else {
        ace_count(cards.drop_last()) + if cards.last().ace() {
            1nat
        } else {
            0nat
        }
    }
}

/// The score of a hand: the hard total, raised by ten for one ace counted
/// high when the hand holds an ace and the raise does not go past 21.
pub open spec fn best_total(cards: Seq<Card>) -> nat {
    let hard = hard_total(cards);
    if ace_count(cards) > 0 && hard <= 11 {
        hard + 10
    } else {
        hard
    }
}

/// Whether the cards are a natural: two cards that score 21.
pub open spec fn black_jack(cards: Seq<Card>) -> bool {
    cards.len() == 2 && best_total(cards) == 21
}

/// Whether the cards score more than 21.
pub open spec fn bust(cards: Seq<Card>) -> bool {
    best_total(cards) > 21
}

/// A hand of cards, used for display and computational purposes.
pub struct Hand {
    cards: Vec<Card>,
}

impl View for Hand {
    type V = Seq<Card>;

    /// The cards of the hand in the order in which they were added.
    closed spec fn view(&self) -> Seq<Card> {
        self.cards@
    }
}

impl Hand {
    /// Creates a new empty hand.
    pub fn new() -> (hand: Self)
        ensures
            hand@ == Seq::<Card>::empty(),
    {
        Self { cards: Vec::new() }
    }

    /// Hard total and number of aces, in types wide enough for any hand.
    fn tally(&self) -> (t: (u128, usize))
        ensures
            t.0 == hard_total(self@),
            t.1 == ace_count(self@),
    {
        let mut hard: u128 = 0;
        let mut aces: usize = 0;
        let mut i: usize = 0;
        while i < self.cards.len()
            invariant
                i <= self.cards.len(),
                hard == hard_total(self.cards@.take(i as int)),
                aces == ace_count(self.cards@.take(i as int)),
                hard <= 10 * i,
                aces <= i,
            decreases self.cards.len() - i,
        {
            let card = &self.cards[i];
            assert(self.cards@.take(i + 1).drop_last() == self.cards@.take(i as int));
            hard += card.score_ace_as_1() as u128;
            if card.is_ace() {
                aces += 1;
            }
            i += 1;
        }
        assert(self.cards@.take(i as int) == self.cards@);
        (hard, aces)
    }

    /// Returns the highest possible total, i.e. not busting by converting an ace.
    ///
    /// The result is wide enough for the total of any hand, however long.
    pub fn total(&self) -> (total: u128)
        ensures
            total == best_total(self@),
    {
        let (hard, count) = self.tally();
        let mut sum: u128 = hard;
        let mut aces: usize = count;
        proof {
            lemma_hard_total_counts_aces(self@);
        }
        while sum <= 11 && aces > 0
            invariant
                ace_count(self@) <= hard_total(self@),
                (sum == hard_total(self@) && aces == ace_count(self@)) || (hard_total(self@) <= 11
                    && sum == hard_total(self@) + 10 && aces == ace_count(self@) - 1),
            decreases aces,
        {
            sum += 10;
            aces -= 1;
        }
        sum
    }

    /// Returns whether the hand wins immediately: two cards that total 21.
    pub fn is_black_jack(&self) -> (b: bool)
        ensures
            b == black_jack(self@),
    {
        self.cards.len() == 2 && self.total() == 21
    }

    /// Returns whether this hand is a bust: its total is over 21.
    pub fn is_bust(&self) -> (b: bool)
        ensures
            b == bust(self@),
    {
        let (hard, _) = self.tally();
        hard > 21
    }

    /// Returns the cards in the hand.
    pub fn cards(&self) -> (cards: &Vec<Card>)
        ensures
            cards@ == self@,
    {
        &self.cards
    }

    /// Adds a card to a hand.
    pub fn add(&mut self, card: Card)
        ensures
            final(self)@ == old(self)@.push(card),
    {
        self.cards.push(card);
    }

    /// Empties the hand; the deck does this when it takes the cards back.
    pub(crate) fn clear(&mut self)
        ensures
            final(self)@ == Seq::<Card>::empty(),
    {
        self.cards.clear();
    }
}

impl Default for Hand {
    fn default() -> (hand: Self)
        ensures
            hand@ == Seq::<Card>::empty(),
    {
        Self::new()
    }
}

/// The total of the cards when `high` of their aces count eleven and the
/// other aces one.
pub open spec fn total_with(cards: Seq<Card>, high: nat) -> nat {
    hard_total(cards) + 10 * high
}

/// The score is the best that the aces allow. It is reached by counting some
/// of the hand's aces high; no such choice that stays within 21 gives more;
/// and where the score is over 21, every choice is.
pub proof fn lemma_best_total_is_highest_within_21(cards: Seq<Card>)
    ensures
        exists|high: nat|
            high <= ace_count(cards) && best_total(cards) == #[trigger] total_with(cards, high),
        forall|high: nat|
            high <= ace_count(cards) && #[trigger] total_with(cards, high) <= 21 ==> total_with(
                cards,
                high,
            ) <= best_total(cards),
        bust(cards) ==> forall|high: nat|
            high <= ace_count(cards) ==> #[trigger] total_with(cards, high) > 21,
{
    lemma_hard_total_counts_aces(cards);
    if ace_count(cards) > 0 && hard_total(cards) <= 11 {
        assert(best_total(cards) == total_with(cards, 1));
    } else {
        assert(best_total(cards) == total_with(cards, 0));
    }
}

/// Taking one card out of a hand lowers the hard total by that card's
/// points, and the number of aces by one if the card is an ace.
pub proof fn lemma_totals_without_card(cards: Seq<Card>, i: int)
    requires
        0 <= i < cards.len(),
    ensures
        hard_total(cards) == hard_total(cards.remove(i)) + cards[i].points(),
        ace_count(cards) == ace_count(cards.remove(i)) + if cards[i].ace() {
            1nat
        } else {
            0nat
        },
    decreases cards.len(),
{
    if i == cards.len() - 1 {
        assert(cards.remove(i) == cards.drop_last());
    } else {
        lemma_totals_without_card(cards.drop_last(), i);
        assert(cards.remove(i).drop_last() == cards.drop_last().remove(i));
        assert(cards.remove(i).last() == cards.last());
    }
}

/// The score does not depend on the order of the cards: two hands that hold
/// the same cards, each as often as the other, have the same hard total, the
/// same number of aces and the same score.
pub proof fn lemma_total_ignores_order(a: Seq<Card>, b: Seq<Card>)
    requires
        a.to_multiset() == b.to_multiset(),
    ensures
        hard_total(a) == hard_total(b),
        ace_count(a) == ace_count(b),
        best_total(a) == best_total(b),
    decreases a.len(),
{
    a.to_multiset_ensures();
    b.to_multiset_ensures();
    if a.len() > 0 {
        let card = a.last();
        assert(a.contains(card));
        assert(a.to_multiset().count(card) > 0);
        assert(b.to_multiset().count(card) > 0);
        assert(b.contains(card));
        let i = choose|i: int| 0 <= i < b.len() && b[i] == card;
        assert(a.remove(a.len() - 1) == a.drop_last());
        lemma_total_ignores_order(a.drop_last(), b.remove(i));
        lemma_totals_without_card(b, i);
    }
}

/// A natural is an ace together with a card that scores ten, in either
/// order, and nothing else.
pub proof fn lemma_black_jack_is_ace_and_ten(cards: Seq<Card>)
    ensures
        black_jack(cards) <==> cards.len() == 2 && ((cards[0].ace() && cards[1].points() == 10)
            || (cards[1].ace() && cards[0].points() == 10)),
{
    if cards.len() == 2 {
        reveal_with_fuel(hard_total, 3);
        reveal_with_fuel(ace_count, 3);
        assert(cards.drop_last().last() == cards[0]);
    }
}

/// A hand that is bust stays bust, whatever card is added to it.
pub proof fn lemma_bust_is_final(cards: Seq<Card>, card: Card)
    requires
        bust(cards),
    ensures
        bust(cards.push(card)),
{
    assert(cards.push(card).drop_last() == cards);
}

/// Every ace scores at least one point, so a hand holds no more aces than
/// its hard total, nor more aces than cards.
pub proof fn lemma_hard_total_counts_aces(cards: Seq<Card>)
    ensures
        ace_count(cards) <= hard_total(cards),
        ace_count(cards) <= cards.len(),
    decreases cards.len(),
{
    if cards.len() > 0 {
        lemma_hard_total_counts_aces(cards.drop_last());
    }
}

} // verus!

//! The cards in play across a whole game: what the deck holds and what the
//! hands hold, and what every sequence of draws and discards preserves.
//!
//! A game is a sequence of plays. A call of `Deck::draw` whose card goes into
//! a hand is a [`Play::Draw`]; a call of `Deck::discard` is a
//! [`Play::Discard`]. The plays are described by the same relations that the
//! contracts of those two functions state, so what is proved here of every
//! game holds of every run of the library.

use vstd::multiset::Multiset;
use vstd::prelude::*;
use vstd::seq_lib::lemma_multiset_commutative;
use crate::card::Card;
use crate::deck::{
    card_at, full_deck, lemma_discard_returns_cards, lemma_draw_is_possible,
    lemma_draw_takes_one_card, lemma_empty_pile_holds_nothing, Piles,
};

verus! {

/// One thing that happens to a deck.
pub enum Play {
    /// A draw that gave `card` to some hand.
    Draw { card: Card },
    /// The return of the cards of `hand` to the discard pile.
    Discard { hand: Seq<Card> },
}

/// Everything on the table: the piles of the deck and the cards that the
/// hands hold between them.
#[verifier::ext_equal]
pub struct Table {
    /// The deck's two piles.
    pub piles: Piles,
    /// The cards in hands, each as often as it is held.
    pub held: Multiset<Card>,
}

impl Table {
    /// The table before the first draw from `decks` new decks.
    pub open spec fn opening(decks: nat) -> Table {
        Table { piles: Piles::fresh(decks), held: Multiset::empty() }
    }

    /// Every card on the table, each as often as it occurs.
    pub open spec fn cards(self) -> Multiset<Card> {
        self.piles.cards().add(self.held)
    }

    /// Whether `play` can lead from this table to `next`.
    ///
    /// A draw moves its card from the piles to the hands. A discard moves
    /// cards that hands hold to the discard pile.
    pub open spec fn plays(self, play: Play, next: Table) -> bool {
        match play {
            Play::Draw { card } => {
                &&& self.piles.draws(card, next.piles)
                &&& next.held == self.held.insert(card)
            },
            Play::Discard { hand } => {
                &&& hand.to_multiset().subset_of(self.held)
                &&& next.piles == self.piles.discards(hand)
                &&& next.held == self.held.sub(hand.to_multiset())
            },
        }
    }
}

/// Whether `tables` is the course of a game in which `plays` happen one after
/// the other: each play leads from one table to the next.
pub open spec fn game(tables: Seq<Table>, plays: Seq<Play>) -> bool {
    &&& tables.len() == plays.len() + 1
    &&& forall|i: int|
        #![trigger plays[i]]
        0 <= i < plays.len() ==> tables[i].plays(plays[i], tables[i + 1])
}

/// No play adds a card to the table or takes one from it.
pub proof fn lemma_play_keeps_cards(table: Table, play: Play, next: Table)
    requires
        table.plays(play, next),
    ensures
        next.cards() == table.cards(),
{
    broadcast use vstd::multiset::group_multiset_axioms;

    match play {
        Play::Draw { card } => {
            lemma_draw_takes_one_card(table.piles, card, next.piles);
            assert(next.cards() =~= table.cards());
        },
        Play::Discard { hand } => {
            lemma_discard_returns_cards(table.piles, hand);
            assert(next.cards() =~= table.cards());
        },
    }
}

/// Throughout a game the table holds the cards it started with.
pub proof fn lemma_game_keeps_cards(tables: Seq<Table>, plays: Seq<Play>, i: int)
    requires
        game(tables, plays),
        0 <= i < tables.len(),
    ensures
        tables[i].cards() == tables[0].cards(),
    decreases i,
{
    if i > 0 {
        lemma_game_keeps_cards(tables, plays, i - 1);
        let play = plays[i - 1];
        lemma_play_keeps_cards(tables[i - 1], play, tables[i]);
    }
}

/// One new deck holds every card exactly once.
pub proof fn lemma_single_deck_has_each_card_once(card: Card)
    ensures
        full_deck(1).to_multiset().count(card) == 1,
{
    let deck = full_deck(1);
    assert forall|i: int, j: int| 0 <= i < deck.len() && 0 <= j < deck.len() && i != j implies deck[i]
        != deck[j] by {
        assert(deck[i] == card_at(i));
        assert(deck[j] == card_at(j));
        assert(i / 4 != j / 4 || i % 4 != j % 4);
    }
    let at = 4 * (*card.rank).ordinal() + (*card.suit).ordinal();
    assert(deck[at] == card);
    assert(deck.contains(card));
    deck.to_multiset_ensures();
    deck.lemma_multiset_has_no_duplicates();
}

/// A pack of `decks` new decks holds every card exactly `decks` times.
pub proof fn lemma_full_deck_has_each_card_once_per_deck(decks: nat, card: Card)
    ensures
        full_deck(decks).to_multiset().count(card) == decks,
        full_deck(decks).len() == 52 * decks,
    decreases decks,
{
    broadcast use vstd::multiset::group_multiset_axioms;

    if decks == 0 {
        lemma_empty_pile_holds_nothing(full_deck(0));
    } else {
        let fewer = (decks - 1) as nat;
        lemma_full_deck_has_each_card_once_per_deck(fewer, card);
        lemma_single_deck_has_each_card_once(card);
        assert(full_deck(decks) == full_deck(fewer) + full_deck(1)) by {
            assert forall|i: int| 0 <= i < 52 * decks implies full_deck(decks)[i] == (full_deck(
                fewer,
            ) + full_deck(1))[i] by {
                if i >= 52 * fewer {
                    assert((i - 52 * fewer) % 52 == i % 52) by (nonlinear_arith)
                        requires
                            0 <= 52 * fewer <= i,
                    ;
                }
            }
        }
        lemma_multiset_commutative(full_deck(fewer), full_deck(1));
    }
}

/// Throughout a game that opened with `decks` new decks, the piles and the
/// hands together hold every card exactly `decks` times: 52 cards per deck,
/// none lost and none made.
pub proof fn lemma_game_keeps_every_card(
    decks: nat,
    tables: Seq<Table>,
    plays: Seq<Play>,
    i: int,
)
    requires
        game(tables, plays),
        tables[0] == Table::opening(decks),
        0 <= i < tables.len(),
    ensures
        tables[i].cards() == full_deck(decks).to_multiset(),
        tables[i].piles.len() + tables[i].held.len() == 52 * decks,
        forall|card: Card|
            tables[i].piles.cards().count(card) + #[trigger] tables[i].held.count(card) == decks,
{
    broadcast use vstd::multiset::group_multiset_axioms;

    lemma_game_keeps_cards(tables, plays, i);
    assert(tables[0].cards() =~= full_deck(decks).to_multiset()) by {
        lemma_empty_pile_holds_nothing(tables[0].piles.draw);
    }
    let piles = tables[i].piles;
    piles.draw.to_multiset_ensures();
    piles.discard.to_multiset_ensures();
    full_deck(decks).to_multiset_ensures();
    assert forall|card: Card|
        piles.cards().count(card) + #[trigger] tables[i].held.count(card) == decks by {
        lemma_full_deck_has_each_card_once_per_deck(decks, card);
    }
}

/// Drawing every card of a new deck, 52 for each of its `decks` decks, gives
/// every card exactly `decks` times and leaves the piles empty. Before that,
/// no card has been given more than `decks` times.
pub proof fn lemma_new_deck_deals_each_card_once_per_deck(
    decks: nat,
    tables: Seq<Table>,
    plays: Seq<Play>,
    i: int,
)
    requires
        game(tables, plays),
        tables[0] == Table::opening(decks),
        0 <= i < tables.len(),
        forall|j: int| 0 <= j < i ==> #[trigger] plays[j] is Draw,
    ensures
        tables[i].held.len() == i,
        i <= 52 * decks,
        forall|card: Card| #[trigger] tables[i].held.count(card) <= decks,
        i == 52 * decks ==> tables[i].piles.len() == 0 && forall|card: Card| #[trigger]
            tables[i].held.count(card) == decks,
    decreases i,
{
    broadcast use vstd::multiset::group_multiset_axioms;

    lemma_game_keeps_every_card(decks, tables, plays, i);
    if i > 0 {
        lemma_new_deck_deals_each_card_once_per_deck(decks, tables, plays, i - 1);
        let play = plays[i - 1];
        assert(tables[i - 1].plays(play, tables[i]));
    }
    if i == 52 * decks {
        let piles = tables[i].piles;
        lemma_empty_pile_holds_nothing(piles.draw);
        lemma_empty_pile_holds_nothing(piles.discard);
        assert(piles.cards() =~= Multiset::<Card>::empty());
    }
}

/// A game never runs out of cards while any are left to give: as long as the
/// hands hold fewer cards than the decks were made of, the piles hold a card
/// and the next draw can be made, whatever was drawn and discarded before.
pub proof fn lemma_draw_never_exhausts_deck(
    decks: nat,
    tables: Seq<Table>,
    plays: Seq<Play>,
    i: int,
)
    requires
        game(tables, plays),
        tables[0] == Table::opening(decks),
        0 <= i < tables.len(),
        tables[i].held.len() < 52 * decks,
    ensures
        tables[i].piles.len() >= 1,
        exists|card: Card, next: Piles| tables[i].piles.draws(card, next),
{
    lemma_game_keeps_every_card(decks, tables, plays, i);
    lemma_draw_is_possible(tables[i].piles);
}

} // verus!

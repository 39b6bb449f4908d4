//! Blackjack for one player against a dealer: cards, hands with soft and hard
//! ace scoring, and a deck of several packs that reshuffles its discard pile
//! back into play.
//!
//! - [`card`] holds the cards and their point values.
//! - [`hand`] holds the [`Hand`] and its score: the highest total that the
//!   aces allow without going over 21.
//! - [`deck`] holds the [`Deck`]. Its contracts speak of [`deck::Piles`], the
//!   draw pile and the discard pile as sequences of cards, and of
//!   [`deck::Piles::draws`], which says what a draw may give.
//! - [`table`] follows the cards through a whole game and proves that none is
//!   ever lost or made.
//! - [`round`] holds the rules that end a round.
//! - [`ui`] draws hands as text and reads the player's choices.

pub mod card;
pub mod deck;
pub mod hand;
pub mod round;
pub mod table;
pub mod ui;

pub use card::{Card, Rank, Suit};
pub use deck::Deck;
pub use hand::Hand;

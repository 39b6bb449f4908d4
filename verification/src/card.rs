//! Playing cards and their point values.

use vstd::prelude::*;

verus! {

/// Number of ranks in a suit.
pub const RANKS: usize = 13;

/// Number of suits in a deck.
pub const SUITS: usize = 4;

/// Card rank, from [`Rank::Two`] to [`Rank::Ace`].
#[derive(Clone, Copy, Debug, PartialEq, Eq, Hash, Structural)]
pub enum Rank {
    Two,
    Three,
    Four,
    Five,
    Six,
    Seven,
    Eight,
    Nine,
    Ten,
    Jack,
    Queen,
    King,
    Ace,
}

/// Card suit. Used for visuals only.
#[derive(Clone, Copy, Debug, PartialEq, Eq, Hash, Structural)]
pub enum Suit {
    Clubs,
    Diamonds,
    Hearts,
    Spades,
}

impl Rank {
    /// Point value of the rank with the ace counted low: pips score their
    /// number, court cards score ten, the ace scores one.
    pub open spec fn points(self) -> nat {
        match self {
            Rank::Two => 2,
            Rank::Three => 3,
            Rank::Four => 4,
            Rank::Five => 5,
            Rank::Six => 6,
            Rank::Seven => 7,
            Rank::Eight => 8,
            Rank::Nine => 9,
            Rank::Ten => 10,
            Rank::Jack => 10,
            Rank::Queen => 10,
            Rank::King => 10,
            Rank::Ace => 1,
        }
    }
}

impl Rank {
    /// Position of the rank in the order of a new deck, from 0 for the two
    /// to 12 for the ace.
    pub open spec fn ordinal(self) -> int {
        match self {
            Rank::Two => 0,
            Rank::Three => 1,
            Rank::Four => 2,
            Rank::Five => 3,
            Rank::Six => 4,
            Rank::Seven => 5,
            Rank::Eight => 6,
            Rank::Nine => 7,
            Rank::Ten => 8,
            Rank::Jack => 9,
            Rank::Queen => 10,
            Rank::King => 11,
            Rank::Ace => 12,
        }
    }

    /// The rank at a position in the order of a new deck.
    pub open spec fn of_ordinal(i: int) -> Rank {
        if i == 0 {
            Rank::Two
        } else if i == 1 {
            Rank::Three
        } else if i == 2 {
            Rank::Four
        } else if i == 3 {
            Rank::Five
        } else if i == 4 {
            Rank::Six
        } else if i == 5 {
            Rank::Seven
        } else if i == 6 {
            Rank::Eight
        } else if i == 7 {
            Rank::Nine
        } else if i == 8 {
            Rank::Ten
        } else if i == 9 {
            Rank::Jack
        } else if i == 10 {
            Rank::Queen
        } else if i == 11 {
            Rank::King
        } else {
            Rank::Ace
        }
    }

    /// The rank at position `i` in the order of a new deck.
    pub fn from_ordinal(i: usize) -> (rank: &'static Rank)
        requires
            i < RANKS,
        ensures
            *rank == Rank::of_ordinal(i as int),
    {
        match i {
            0 => &Rank::Two,
            1 => &Rank::Three,
            2 => &Rank::Four,
            3 => &Rank::Five,
            4 => &Rank::Six,
            5 => &Rank::Seven,
            6 => &Rank::Eight,
            7 => &Rank::Nine,
            8 => &Rank::Ten,
            9 => &Rank::Jack,
            10 => &Rank::Queen,
            11 => &Rank::King,
            _ => &Rank::Ace,
        }
    }
}

impl Suit {
    /// Position of the suit in the order of a new deck, from 0 for clubs to
    /// 3 for spades.
    pub open spec fn ordinal(self) -> int {
        match self {
            Suit::Clubs => 0,
            Suit::Diamonds => 1,
            Suit::Hearts => 2,
            Suit::Spades => 3,
        }
    }

    /// The suit at a position in the order of a new deck.
    pub open spec fn of_ordinal(i: int) -> Suit {
        if i == 0 {
            Suit::Clubs
        } else if i == 1 {
            Suit::Diamonds
        } else if i == 2 {
            Suit::Hearts
        } else {
            Suit::Spades
        }
    }

    /// The suit at position `i` in the order of a new deck.
    pub fn from_ordinal(i: usize) -> (suit: &'static Suit)
        requires
            i < SUITS,
        ensures
            *suit == Suit::of_ordinal(i as int),
    {
        match i {
            0 => &Suit::Clubs,
            1 => &Suit::Diamonds,
            2 => &Suit::Hearts,
            _ => &Suit::Spades,
        }
    }
}

/// A playing card within a hand or on the table.
#[derive(Clone, Copy, Debug, PartialEq, Eq, Hash, Structural)]
pub struct Card {
    pub rank: &'static Rank,
    pub suit: &'static Suit,
}

impl Card {
    /// Whether the card is an ace, as a specification.
    pub open spec fn ace(self) -> bool {
        *self.rank == Rank::Ace
    }

    /// Point value of the card with the ace counted low.
    pub open spec fn points(self) -> nat {
        (*self.rank).points()
    }

    /// Creates a new card.
    pub fn new(rank: &'static Rank, suit: &'static Suit) -> (card: Self)
        ensures
            card == (Card { rank, suit }),
    {
        Self { rank, suit }
    }

    /// Whether this card is an ace.
    pub fn is_ace(&self) -> (b: bool)
        ensures
            b == self.ace(),
    {
        match self.rank {
            Rank::Ace => true,
            _ => false,
        }
    }

    /// Returns the sub-total score for this card, counting an ace as 1.
    pub fn score_ace_as_1(&self) -> (score: u8)
        ensures
            score == self.points(),
            1 <= score <= 10,
    {
        match self.rank {
            Rank::Two => 2,
            Rank::Three => 3,
            Rank::Four => 4,
            Rank::Five => 5,
            Rank::Six => 6,
            Rank::Seven => 7,
            Rank::Eight => 8,
            Rank::Nine => 9,
            Rank::Ten => 10,
            Rank::Jack => 10,
            Rank::Queen => 10,
            Rank::King => 10,
            Rank::Ace => 1,
        }
    }
}

} // verus!

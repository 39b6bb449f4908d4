//! Text pictures of hands for the terminal, and the player's choices.

use vstd::prelude::*;
use crate::card::{Card, Rank, Suit};
use crate::hand::Hand;

verus! {

/// The character that stands for a rank on a card: the pips their digit, the
/// ten a zero, the court cards and the ace their initial.
pub open spec fn rank_mark(rank: Rank) -> Seq<char> {
    match rank {
        Rank::Two => "2"@,
        Rank::Three => "3"@,
        Rank::Four => "4"@,
        Rank::Five => "5"@,
        Rank::Six => "6"@,
        Rank::Seven => "7"@,
        Rank::Eight => "8"@,
        Rank::Nine => "9"@,
        Rank::Ten => "0"@,
        Rank::Jack => "J"@,
        Rank::Queen => "Q"@,
        Rank::King => "K"@,
        Rank::Ace => "A"@,
    }
}

/// The symbol that stands for a suit on a card.
pub open spec fn suit_mark(suit: Suit) -> Seq<char> {
    match suit {
        Suit::Clubs => "♣"@,
        Suit::Diamonds => "♦"@,
        Suit::Hearts => "♥"@,
        Suit::Spades => "♠"@,
    }
}

/// The middle line of a card that lies face up.
pub open spec fn face(card: Card) -> Seq<char> {
    "│"@ + rank_mark(*card.rank) + suit_mark(*card.suit) + "│"@
}

/// The middle line of the card at position `i` of a hand: its face, or its
/// back where the hand hides every card but the first.
pub open spec fn middle(cards: Seq<Card>, hide: bool, i: int) -> Seq<char> {
    if i == 0 || !hide {
        face(cards[i])
    } else {
        "│░░│"@
    }
}

/// The parts in a row, with one space between each two of them.
pub open spec fn spaced(parts: Seq<Seq<char>>) -> Seq<char>
    decreases parts.len(),
{
    if parts.len() == 0 {
        Seq::empty()
    } else if parts.len() == 1 {
        parts[0]
    } else {
        spaced(parts.drop_last()) + " "@ + parts.last()
    }
}

/// The top edges of `n` cards.
pub open spec fn tops(n: nat) -> Seq<Seq<char>> {
    Seq::new(n, |i: int| "┌──┐"@)
}

/// The middle lines of the cards of a hand.
pub open spec fn middles(cards: Seq<Card>, hide: bool) -> Seq<Seq<char>> {
    Seq::new(cards.len(), |i: int| middle(cards, hide, i))
}

/// The bottom edges of `n` cards.
pub open spec fn bottoms(n: nat) -> Seq<Seq<char>> {
    Seq::new(n, |i: int| "└──┘"@)
}

/// The picture of a hand: three lines of text, each ended by a line feed,
/// that show the cards side by side as boxes.
pub open spec fn picture(cards: Seq<Card>, hide: bool) -> Seq<char> {
    spaced(tops(cards.len())) + "\n"@ + spaced(middles(cards, hide)) + "\n"@ + spaced(
        bottoms(cards.len()),
    ) + "\n"@
}

/// Adding one more part to a row adds a space, unless the row was empty,
/// and then the part.
proof fn lemma_spaced_grows(parts: Seq<Seq<char>>)
    requires
        parts.len() > 0,
    ensures
        spaced(parts) == if parts.len() == 1 {
            parts.last()
        } else {
            spaced(parts.drop_last()) + " "@ + parts.last()
        },
{
}

fn rank_text(rank: &Rank) -> (text: &'static str)
    ensures
        text@ == rank_mark(*rank),
{
    match rank {
        Rank::Two => "2",
        Rank::Three => "3",
        Rank::Four => "4",
        Rank::Five => "5",
        Rank::Six => "6",
        Rank::Seven => "7",
        Rank::Eight => "8",
        Rank::Nine => "9",
        Rank::Ten => "0",
        Rank::Jack => "J",
        Rank::Queen => "Q",
        Rank::King => "K",
        Rank::Ace => "A",
    }
}

fn suit_text(suit: &Suit) -> (text: &'static str)
    ensures
        text@ == suit_mark(*suit),
{
    match suit {
        Suit::Clubs => "♣",
        Suit::Diamonds => "♦",
        Suit::Hearts => "♥",
        Suit::Spades => "♠",
    }
}

/// Given a hand of cards, draws it as text.
pub struct DrawHand<'a> {
    hand: &'a Hand,
    hide: bool,
}

impl<'a> DrawHand<'a> {
    /// The cards of the hand that is drawn.
    pub closed spec fn cards(&self) -> Seq<Card> {
        self.hand@
    }

    /// Whether every card but the first is drawn face down.
    pub closed spec fn hidden(&self) -> bool {
        self.hide
    }

    /// Creates a new drawable player hand for the UI.
    pub fn for_player(hand: &'a Hand) -> (drawn: Self)
        ensures
            drawn.cards() == hand@,
            !drawn.hidden(),
    {
        Self { hand, hide: false }
    }

    /// Creates a new drawable dealer hand for the UI.
    ///
    /// If `hide` is true, assumes exactly two cards and hides the second in the UI.
    pub fn for_dealer(hand: &'a Hand, hide: bool) -> (drawn: Self)
        requires
            hide ==> hand@.len() == 2,
        ensures
            drawn.cards() == hand@,
            drawn.hidden() == hide,
    {
        Self { hand, hide }
    }

    /// Draws the hand: the top edges, the faces or backs, and the bottom
    /// edges of its cards, one line each.
    pub fn render(&self) -> (text: String)
        ensures
            text@ == picture(self.cards(), self.hidden()),
    {
        let cards = self.hand.cards();
        let mut top = String::new();
        let mut mid = String::new();
        let mut bot = String::new();
        let mut i: usize = 0;
        while i < cards.len()
            invariant
                i <= cards@.len(),
                cards@ == self.hand@,
                top@ == spaced(tops(i as nat)),
                mid@ == spaced(middles(cards@, self.hide).take(i as int)),
                bot@ == spaced(bottoms(i as nat)),
            decreases cards@.len() - i,
        {
            if i > 0 {
                top.append(" ");
                mid.append(" ");
                bot.append(" ");
            }
            top.append("┌──┐");
            if i == 0 || !self.hide {
                let card = &cards[i];
                mid.append("│");
                mid.append(rank_text(card.rank));
                mid.append(suit_text(card.suit));
                mid.append("│");
            } else {
                mid.append("│░░│");
            }
            bot.append("└──┘");
            proof {
                let n = (i + 1) as nat;
                let shown = middles(cards@, self.hide);
                assert(tops(n).drop_last() == tops(i as nat));
                assert(bottoms(n).drop_last() == bottoms(i as nat));
                assert(shown.take(i + 1).drop_last() == shown.take(i as int));
                lemma_spaced_grows(tops(n));
                lemma_spaced_grows(bottoms(n));
                lemma_spaced_grows(shown.take(i + 1));
            }
            i += 1;
        }
        assert(middles(cards@, self.hide).take(i as int) == middles(cards@, self.hide));
        let mut text = top;
        text.append("\n");
        text.append(mid.as_str());
        text.append("\n");
        text.append(bot.as_str());
        text.append("\n");
        text
    }
}

/// Possible return options from the player.
#[derive(Clone, Copy, Debug, PartialEq, Eq, Structural)]
pub enum Menu {
    Quit,
    Draw,
    Stay,
}

/// What `str::trim` leaves of a line of text.
pub uninterp spec fn trimmed(line: Seq<char>) -> Seq<char>;

/// Calls `str::trim`, which gives the part of the line between its leading
/// and its trailing whitespace. What counts as whitespace is Unicode's
/// business, so the result only has a name here: [`trimmed`].
#[verifier::external_body]
fn trim(line: &str) -> (key: &str)
    ensures
        key@ == trimmed(line@),
{
    line.trim()
}

impl Menu {
    /// The choice that a key stands for: `Q`, `D` or `S`, in either case,
    /// and nothing before or after it.
    pub open spec fn of_key(key: Seq<char>) -> Option<Menu> {
        if key.len() != 1 {
            None
        } else if key[0] == 'Q' || key[0] == 'q' {
            Some(Menu::Quit)
        } else if key[0] == 'D' || key[0] == 'd' {
            Some(Menu::Draw)
        } else if key[0] == 'S' || key[0] == 's' {
            Some(Menu::Stay)
        } else {
            None
        }
    }

    /// Reads a choice from a key, given without anything around it.
    pub fn from_key(key: &str) -> (choice: Option<Menu>)
        ensures
            choice == Menu::of_key(key@),
    {
        if key.unicode_len() != 1 {
            return None;
        }
        let c = key.get_char(0);
        if c == 'Q' || c == 'q' {
            Some(Menu::Quit)
        } else if c == 'D' || c == 'd' {
            Some(Menu::Draw)
        } else if c == 'S' || c == 's' {
            Some(Menu::Stay)
        } else {
            None
        }
    }

    /// Reads a choice from a line of input: the key is what is left of the
    /// line once the whitespace around it is trimmed off.
    pub fn parse(line: &str) -> (choice: Option<Menu>)
        ensures
            choice == Menu::of_key(trimmed(line@)),
    {
        Menu::from_key(trim(line))
    }
}

} // verus!

//! The rules that settle a round between the player and the dealer.

use vstd::prelude::*;

verus! {

/// The dealer draws below this total and stands from it on.
pub const DEALER_STANDS_ON: u128 = 17;

/// How a round ends for the player.
#[derive(Clone, Copy, Debug, PartialEq, Eq, Structural)]
pub enum Outcome {
    Lose,
    Tie,
    Win,
}

/// Whether the dealer, holding `total`, draws another card.
pub fn dealer_draws(total: u128) -> (draws: bool)
    ensures
        draws == (total < DEALER_STANDS_ON),
{
    total < DEALER_STANDS_ON
}

/// Settles a round in which the player did not bust: the higher total wins.
pub fn settle(player: u128, dealer: u128) -> (outcome: Outcome)
    ensures
        outcome == if player < dealer {
            Outcome::Lose
        } else if player == dealer {
            Outcome::Tie
        } else {
            Outcome::Win
        },
{
    if player < dealer {
        Outcome::Lose
    } else if player == dealer {
        Outcome::Tie
    } else {
        Outcome::Win
    }
}

} // verus!

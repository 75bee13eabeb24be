//! Checks whether a player may actually play the hand they offered.

use core::cmp::Ordering;

use vstd::prelude::*;
use vstd::string::StringExecFns;

use crate::card::Card;
use crate::hand::order::{order, order_spec};
use crate::hand::Hand;
use crate::player::{hand_in_cards_spec, Player};

verus! {

/// The ways a player's offered hand is not playable.
#[derive(Debug)]
pub enum PlayHandError {
    /// The offered hand does not compare with the hand to beat.
    NotMatching,
    /// The offered hand does not exceed the hand to beat.
    TooLow,
    /// The offered hand names cards the player does not hold.
    StolenCards,
}

/// The message shown for each rejection.
pub open spec fn play_error_text(e: PlayHandError) -> Seq<char> {
    match e {
        PlayHandError::NotMatching => "wrong number of cards"@,
        PlayHandError::TooLow => "highest is not high enough"@,
        PlayHandError::StolenCards => "these cards are not in the players hand"@,
    }
}

impl PlayHandError {
    /// The message shown for this rejection.
    pub fn to_text(&self) -> (out: String)
        ensures
            out@ == play_error_text(*self),
    {
        match self {
            PlayHandError::NotMatching => String::from_str("wrong number of cards"),
            PlayHandError::TooLow => String::from_str("highest is not high enough"),
            PlayHandError::StolenCards => String::from_str(
                "these cards are not in the players hand",
            ),
        }
    }
}

/// What checking a play returns. A pass is always playable. Any other
/// hand must be made of cards the player holds, must compare with the
/// hand to beat, and must compare strictly above it; the steps are
/// checked in that order and the first failed one names the rejection.
pub open spec fn check_play_spec(current: Hand, cards: Seq<Card>, attempt: Hand) -> Result<
    (),
    PlayHandError,
> {
    if attempt is Pass {
        Ok(())
    } else if !hand_in_cards_spec(attempt, cards) {
        Err(PlayHandError::StolenCards)
    } else if order_spec(current, attempt) is None {
        Err(PlayHandError::NotMatching)
    } else if order_spec(current, attempt) != Some(Ordering::Less) {
        Err(PlayHandError::TooLow)
    } else {
        Ok(())
    }
}

/// Checks whether the player may play the offered hand atop the
/// current hand: `Ok` when playable, else the specific rejection.
pub fn check_player_can_play_hand(current: &Hand, player: &Player, attempt: &Hand) -> (r: Result<
    (),
    PlayHandError,
>)
    ensures
        r == check_play_spec(*current, player.cards@, *attempt),
{
    if attempt.is_pass() {
        return Ok(());
    }
    if !player.has_cards(attempt) {
        return Err(PlayHandError::StolenCards);
    }
    match order(current, attempt) {
        None => Err(PlayHandError::NotMatching),
        Some(o) => {
            if !matches!(o, Ordering::Less) {
                Err(PlayHandError::TooLow)
            } else {
                Ok(())
            }
        },
    }
}

} // verus!

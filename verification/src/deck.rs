//! The full deck of fifty-two cards.

use vstd::prelude::*;

use crate::card::rank::Rank;
use crate::card::suit::Suit;
use crate::card::Card;

verus! {

/// A full deck, highest card first.
#[derive(Debug)]
pub struct Deck {
    pub cards: Vec<Card>,
}

/// The rank whose position in the game order is `n`.
pub open spec fn rank_of_code(n: int) -> Rank {
    if n == 0 {
        Rank::Three
    } else if n == 1 {
        Rank::Four
    } else if n == 2 {
        Rank::Five
    } else if n == 3 {
        Rank::Six
    } else if n == 4 {
        Rank::Seven
    } else if n == 5 {
        Rank::Eight
    } else if n == 6 {
        Rank::Nine
    } else if n == 7 {
        Rank::Ten
    } else if n == 8 {
        Rank::Jack
    } else if n == 9 {
        Rank::Queen
    } else if n == 10 {
        Rank::King
    } else if n == 11 {
        Rank::Ace
    } else {
        Rank::Two
    }
}

/// The suit whose position in the game order is `n`.
pub open spec fn suit_of_code(n: int) -> Suit {
    if n == 0 {
        Suit::Clubs
    } else if n == 1 {
        Suit::Diamonds
    } else if n == 2 {
        Suit::Hearts
    } else {
        Suit::Spades
    }
}

/// The card at position `i` of a fresh deck: the deck descends from
/// the Two of Spades down to the Three of Clubs.
pub open spec fn deck_card(i: int) -> Card {
    Card { rank: rank_of_code((51 - i) / 4), suit: suit_of_code((51 - i) % 4) }
}

impl Deck {
    /// A full deck of the fifty-two distinct cards, highest first.
    pub fn new() -> (deck: Deck)
        ensures
            deck.cards@.len() == 52,
            forall|i: int| 0 <= i < 52 ==> deck.cards@[i] == deck_card(i),
    {
        let ranks = Rank::all();
        let suits = Suit::all();
        proof {
            assert(forall|k: int| 0 <= k < 13 ==> ranks@[k] == rank_of_code(k));
            assert(forall|k: int| 0 <= k < 4 ==> suits@[k] == suit_of_code(k));
        }
        let mut cards: Vec<Card> = Vec::new();
        let mut i: usize = 0;
        while i < 52
            invariant
                0 <= i <= 52,
                cards@.len() == i,
                forall|k: int| 0 <= k < i ==> cards@[k] == deck_card(k),
                forall|k: int| 0 <= k < 13 ==> ranks@[k] == rank_of_code(k),
                forall|k: int| 0 <= k < 4 ==> suits@[k] == suit_of_code(k),
                ranks@.len() == 13,
                suits@.len() == 4,
            decreases 52 - i,
        {
            let ri = (51 - i) / 4;
            let si = (51 - i) % 4;
            cards.push(Card { rank: ranks[ri], suit: suits[si] });
            i = i + 1;
        }
        Deck { cards }
    }
}

} // verus!

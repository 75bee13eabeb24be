//! The scripted player behaviors: open with the lowest cards, beat a
//! lone card with the smallest higher card, otherwise pass.

use core::cmp::Ordering;

use vstd::prelude::*;

use crate::card::{spec_three_of_clubs, Card};
use crate::hand::order::{cmp_cards_spec, order_spec};
use crate::hand::Hand;
use crate::player::{ascending_cards, hand_in_cards_spec, TurnResponder};

verus! {

/// What the scripted opener plays on the first trick of the game: the
/// widest of trips, pair or lone made of the player's lowest cards,
/// which always include the Three of Clubs.
pub open spec fn use_three_of_clubs_spec(cards: Seq<Card>) -> Hand {
    if cards[0].rank == cards[1].rank && cards[1].rank == cards[2].rank {
        Hand::Trips(cards[2], cards[1], cards[0])
    } else if cards[0].rank == cards[1].rank {
        Hand::Pair(cards[1], cards[0])
    } else {
        Hand::Lone(cards[0])
    }
}

/// Opens the first trick of the game with the player's lowest cards:
/// their trips, pair or lone around the Three of Clubs.
pub fn use_three_of_clubs(cards: &Vec<Card>) -> (h: Hand)
    requires
        cards@.len() >= 3,
        ascending_cards(cards@),
        cards@[0] == spec_three_of_clubs(),
    ensures
        h == use_three_of_clubs_spec(cards@),
        h.wf(),
        !(h is Pass),
        hand_in_cards_spec(h, cards@),
        h.spec_cards().contains(spec_three_of_clubs()),
{
    let a = cards[0];
    let b = cards[1];
    let c = cards[2];
    proof {
        assert(cards@[0].lt_spec(cards@[1]));
        assert(cards@[1].lt_spec(cards@[2]));
        assert(cards@.contains(a)) by {
            assert(cards@[0] == a);
        }
        assert(cards@.contains(b)) by {
            assert(cards@[1] == b);
        }
        assert(cards@.contains(c)) by {
            assert(cards@[2] == c);
        }
    }
    let h = match Hand::try_trips(c, b, a) {
        Ok(t) => t,
        Err(_) => match Hand::try_pair(b, a) {
            Ok(p) => p,
            Err(_) => Hand::Lone(a),
        },
    };
    proof {
        match h {
            Hand::Trips(x, y, z) => {
                assert(h.spec_cards()[2] == a);
            },
            Hand::Pair(x, y) => {
                assert(h.spec_cards()[1] == a);
            },
            Hand::Lone(x) => {
                assert(h.spec_cards()[0] == a);
            },
            _ => {},
        }
    }
    h
}

/// The first card in the list that beats `c`, if any.
pub open spec fn first_beating(cards: Seq<Card>, c: Card) -> Option<Card>
    decreases cards.len(),
{
    if cards.len() == 0 {
        None
    } else if c.lt_spec(cards[0]) {
        Some(cards[0])
    } else {
        first_beating(cards.drop_first(), c)
    }
}

/// A found card is one of the player's and strictly beats `c`.
proof fn lemma_first_beating(cards: Seq<Card>, c: Card)
    ensures
        first_beating(cards, c) matches Some(x) ==> cards.contains(x) && c.lt_spec(x),
    decreases cards.len(),
{
    if cards.len() > 0 {
        if c.lt_spec(cards[0]) {
            assert(cards[0] == cards[0]);
            assert(cards.contains(cards[0]));
        } else {
            lemma_first_beating(cards.drop_first(), c);
            match first_beating(cards.drop_first(), c) {
                Some(x) => {
                    let i = choose|i: int|
                        0 <= i < cards.drop_first().len() && cards.drop_first()[i] == x;
                    assert(cards[i + 1] == x);
                },
                None => {},
            }
        }
    }
}

/// What the scripted player answers against a hand to beat: the first
/// of their cards that beats a lone card, otherwise a pass.
pub open spec fn play_smallest_spec(hand: Hand, cards: Seq<Card>) -> Hand {
    match hand {
        Hand::Lone(c) => match first_beating(cards, c) {
            Some(x) => Hand::Lone(x),
            None => Hand::Pass,
        },
        _ => Hand::Pass,
    }
}

/// Beats a lone card with the first higher card held, else passes.
/// On an ascending inventory the first higher card is the smallest.
pub fn play_smallest_single_or_pass(hand: &Hand, cards: &Vec<Card>) -> (h: Hand)
    ensures
        h == play_smallest_spec(*hand, cards@),
{
    if let Hand::Lone(c) = hand {
        let n = cards.len();
        let mut i: usize = 0;
        proof {
            assert(cards@.skip(0) =~= cards@);
        }
        while i < n
            invariant
                0 <= i <= n == cards@.len(),
                *hand == Hand::Lone(*c),
                first_beating(cards@, *c) == first_beating(cards@.skip(i as int), *c),
            decreases n - i,
        {
            proof {
                assert(cards@.skip(i as int)[0] == cards@[i as int]);
                assert(cards@.skip(i as int).drop_first() =~= cards@.skip(i + 1));
            }
            if c.lt(&cards[i]) {
                return Hand::Lone(cards[i]);
            }
            i = i + 1;
        }
        Hand::Pass
    } else {
        Hand::Pass
    }
}

/// Opens a later trick with the first card held.
pub fn start_trick_with_smallest_single(cards: &Vec<Card>) -> (h: Hand)
    requires
        cards@.len() >= 1,
    ensures
        h == Hand::Lone(cards@[0]),
{
    Hand::Lone(cards[0])
}

/// The default scripted player: a responder built from the behaviors
/// in this module.
pub struct AiResponder;

impl TurnResponder for AiResponder {
    fn offer_game_opener(&mut self, player_id: usize, cards: &Vec<Card>) -> (h: Hand) {
        if cards.len() >= 3 {
            use_three_of_clubs(cards)
        } else if cards.len() == 2 {
            proof {
                assert(cards@[0].lt_spec(cards@[1]));
                assert(cards@.contains(cards@[0]));
                assert(cards@.contains(cards@[1]));
            }
            let h = match Hand::try_pair(cards[1], cards[0]) {
                Ok(p) => p,
                Err(_) => Hand::Lone(cards[0]),
            };
            proof {
                match h {
                    Hand::Pair(x, y) => {
                        assert(h.spec_cards()[1] == cards@[0]);
                    },
                    Hand::Lone(x) => {
                        assert(h.spec_cards()[0] == cards@[0]);
                    },
                    _ => {},
                }
            }
            h
        } else {
            proof {
                assert(cards@.contains(cards@[0]));
            }
            Hand::Lone(cards[0])
        }
    }

    fn offer_trick_opener(&mut self, player_id: usize, cards: &Vec<Card>) -> (h: Hand) {
        proof {
            assert(cards@.contains(cards@[0]));
        }
        start_trick_with_smallest_single(cards)
    }

    fn offer_play(&mut self, player_id: usize, hand_to_beat: &Hand, cards: &Vec<Card>) -> (h:
        Hand) {
        let h = play_smallest_single_or_pass(hand_to_beat, cards);
        proof {
            lemma_first_beating(cards@, match *hand_to_beat {
                Hand::Lone(c) => c,
                _ => spec_three_of_clubs(),
            });
            match *hand_to_beat {
                Hand::Lone(c) => match first_beating(cards@, c) {
                    Some(x) => {
                        assert(h == Hand::Lone(x));
                        assert(cmp_cards_spec(seq![c], seq![x]) == Ordering::Less);
                        assert(order_spec(*hand_to_beat, h) == Some(Ordering::Less));
                    },
                    None => {},
                },
                _ => {},
            }
        }
        h
    }
}

} // verus!

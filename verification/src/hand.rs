//! The allowed combinations of cards (a "hand"); a value of this type
//! cannot represent an unrecognized combination once validated.

pub mod iter;
pub mod order;
pub mod try_from;

use vstd::prelude::*;
use vstd::string::StringExecFns;

use crate::card::{card_text, Card};

verus! {

/// One of the allowed combinations of cards. Every variant that holds
/// cards keeps them in strictly descending card order; `wf` states the
/// full validity condition that construction establishes.
#[derive(Debug, PartialEq, Eq, Hash, Structural)]
pub enum Hand {
    /// No cards: always a legal response, never a legal trick opener.
    Pass,
    /// A single card.
    Lone(Card),
    /// Two cards of equal rank.
    Pair(Card, Card),
    /// Three cards of equal rank.
    Trips(Card, Card, Card),
    /// Five cards of strictly consecutive rank, not all of one suit.
    Straight(Card, Card, Card, Card, Card),
    /// Five cards of one suit, not of consecutive rank.
    Flush(Card, Card, Card, Card, Card),
    /// Three cards of one rank together with two of another.
    FullHouse(Card, Card, Card, Card, Card),
    /// Four cards of one rank plus one unrelated card.
    FourPlusKick(Card, Card, Card, Card, Card),
    /// Five cards of consecutive rank, all of one suit.
    StraightFlush(Card, Card, Card, Card, Card),
}

/// Five cards in strictly descending card order.
pub open spec fn desc5(a: Card, b: Card, c: Card, d: Card, e: Card) -> bool {
    e.lt_spec(d) && d.lt_spec(c) && c.lt_spec(b) && b.lt_spec(a)
}

/// Five ranks that step down by exactly one from first to last.
pub open spec fn consecutive5(a: Card, b: Card, c: Card, d: Card, e: Card) -> bool {
    a.rank.code() == b.rank.code() + 1 && b.rank.code() == c.rank.code() + 1 && c.rank.code()
        == d.rank.code() + 1 && d.rank.code() == e.rank.code() + 1
}

/// Five cards of a single suit.
pub open spec fn same_suit5(a: Card, b: Card, c: Card, d: Card, e: Card) -> bool {
    a.suit == b.suit && b.suit == c.suit && c.suit == d.suit && d.suit == e.suit
}

/// Three cards of one rank and two of another, in descending order:
/// either the trip comes first or the pair does.
pub open spec fn full_house5(a: Card, b: Card, c: Card, d: Card, e: Card) -> bool {
    (a.rank == b.rank && b.rank == c.rank && d.rank == e.rank && c.rank != d.rank) || (a.rank
        == b.rank && c.rank == d.rank && d.rank == e.rank && b.rank != c.rank)
}

/// Four cards of one rank plus one unrelated card, in descending order:
/// either the quad comes first or the kicker does.
pub open spec fn four_kick5(a: Card, b: Card, c: Card, d: Card, e: Card) -> bool {
    (a.rank == b.rank && b.rank == c.rank && c.rank == d.rank && d.rank != e.rank) || (b.rank
        == c.rank && c.rank == d.rank && d.rank == e.rank && a.rank != b.rank)
}

impl Hand {
    /// The cards of this hand, highest first.
    pub open spec fn spec_cards(self) -> Seq<Card> {
        match self {
            Hand::Pass => seq![],
            Hand::Lone(a) => seq![a],
            Hand::Pair(a, b) => seq![a, b],
            Hand::Trips(a, b, c) => seq![a, b, c],
            Hand::Straight(a, b, c, d, e) => seq![a, b, c, d, e],
            Hand::Flush(a, b, c, d, e) => seq![a, b, c, d, e],
            Hand::FullHouse(a, b, c, d, e) => seq![a, b, c, d, e],
            Hand::FourPlusKick(a, b, c, d, e) => seq![a, b, c, d, e],
            Hand::StraightFlush(a, b, c, d, e) => seq![a, b, c, d, e],
        }
    }

    /// Validity of a hand: the cards are strictly descending and fit
    /// the structural requirement of the variant.
    pub open spec fn wf(self) -> bool {
        match self {
            Hand::Pass => true,
            Hand::Lone(_) => true,
            Hand::Pair(a, b) => b.lt_spec(a) && a.rank == b.rank,
            Hand::Trips(a, b, c) => c.lt_spec(b) && b.lt_spec(a) && a.rank == b.rank && b.rank
                == c.rank,
            Hand::Straight(a, b, c, d, e) => desc5(a, b, c, d, e) && consecutive5(a, b, c, d, e)
                && !same_suit5(a, b, c, d, e),
            Hand::Flush(a, b, c, d, e) => desc5(a, b, c, d, e) && same_suit5(a, b, c, d, e)
                && !consecutive5(a, b, c, d, e),
            Hand::FullHouse(a, b, c, d, e) => desc5(a, b, c, d, e) && full_house5(a, b, c, d, e),
            Hand::FourPlusKick(a, b, c, d, e) => desc5(a, b, c, d, e) && four_kick5(a, b, c, d, e),
            Hand::StraightFlush(a, b, c, d, e) => desc5(a, b, c, d, e) && consecutive5(
                a,
                b,
                c,
                d,
                e,
            ) && same_suit5(a, b, c, d, e),
        }
    }

    /// Whether this hand is the no-card response.
    pub fn is_pass(&self) -> (b: bool)
        ensures
            b == (*self is Pass),
    {
        match self {
            Hand::Pass => true,
            _ => false,
        }
    }

    /// Serializes this hand: its cards' tokens, highest first,
    /// separated by single spaces; a pass serializes as the empty string.
    pub fn to_text(&self) -> (out: String)
        ensures
            out@ == hand_text(*self),
    {
        let cards = self.cards();
        cards_text_exec(&cards)
    }
}

/// The text encoding of a card sequence: the cards' two-character
/// tokens separated by single spaces.
pub open spec fn cards_text(cards: Seq<Card>) -> Seq<char>
    decreases cards.len(),
{
    if cards.len() == 0 {
        Seq::<char>::empty()
    } else if cards.len() == 1 {
        card_text(cards[0])
    } else {
        card_text(cards[0]) + seq![' '] + cards_text(cards.drop_first())
    }
}

/// The text encoding of a hand.
pub open spec fn hand_text(h: Hand) -> Seq<char> {
    cards_text(h.spec_cards())
}

/// Appending one more card to an encoded sequence appends a space
/// (when cards precede it) and the card's token.
proof fn lemma_cards_text_snoc(cards: Seq<Card>, c: Card)
    ensures
        cards.len() == 0 ==> cards_text(cards.push(c)) == card_text(c),
        cards.len() > 0 ==> cards_text(cards.push(c)) == cards_text(cards) + seq![' ']
            + card_text(c),
    decreases cards.len(),
{
    let p = cards.push(c);
    if cards.len() == 0 {
        assert(p.len() == 1);
        assert(p[0] == c);
    } else if cards.len() == 1 {
        assert(p.len() == 2);
        assert(p[0] == cards[0]);
        assert(p.drop_first() =~= seq![c]);
        assert(cards_text(seq![c]) == card_text(c));
        assert(cards_text(p) == card_text(cards[0]) + seq![' '] + card_text(c));
    } else {
        lemma_cards_text_snoc(cards.drop_first(), c);
        assert(p.drop_first() =~= cards.drop_first().push(c));
        assert(cards_text(p) == card_text(p[0]) + seq![' '] + cards_text(p.drop_first()));
        assert(cards_text(p) =~= cards_text(cards) + seq![' '] + card_text(c));
    }
}

/// Serializes a card sequence, highest first, space-separated.
pub fn cards_text_exec(cards: &Vec<Card>) -> (out: String)
    ensures
        out@ == cards_text(cards@),
{
    let mut out = String::new();
    let mut i: usize = 0;
    proof {
        assert(cards@.take(0) =~= Seq::<Card>::empty());
    }
    while i < cards.len()
        invariant
            0 <= i <= cards@.len(),
            out@ == cards_text(cards@.take(i as int)),
        decreases cards@.len() - i,
    {
        proof {
            lemma_cards_text_snoc(cards@.take(i as int), cards@[i as int]);
            assert(cards@.take(i + 1) =~= cards@.take(i as int).push(cards@[i as int]));
        }
        if i > 0 {
            proof {
                reveal_strlit(" ");
            }
            out.append(" ");
        }
        let token = cards[i].to_text();
        out.append(token.as_str());
        i = i + 1;
    }
    proof {
        assert(cards@.take(cards@.len() as int) =~= cards@);
    }
    out
}

} // verus!

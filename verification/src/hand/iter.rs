//! Walking the cards of a hand one at a time.

use vstd::prelude::*;

use crate::card::Card;
use crate::hand::Hand;

verus! {

/// Hands a hand's cards out one at a time, highest first.
pub struct HandIterator {
    cards: Vec<Card>,
    index: usize,
}

impl HandIterator {
    /// The cards this iterator walks.
    pub closed spec fn spec_cards(self) -> Seq<Card> {
        self.cards@
    }

    /// How many cards have been handed out already.
    pub closed spec fn spec_index(self) -> int {
        self.index as int
    }

    /// The position never runs past the cards.
    pub open spec fn wf(self) -> bool {
        0 <= self.spec_index() <= self.spec_cards().len()
    }

    /// Starts walking the given hand's cards.
    pub fn new(hand: &Hand) -> (it: HandIterator)
        ensures
            it.wf(),
            it.spec_cards() == hand.spec_cards(),
            it.spec_index() == 0,
    {
        HandIterator { cards: hand.cards(), index: 0 }
    }

    /// The next card, or `None` once every card has been handed out.
    pub fn next(&mut self) -> (r: Option<Card>)
        requires
            old(self).wf(),
        ensures
            final(self).wf(),
            final(self).spec_cards() == old(self).spec_cards(),
            old(self).spec_index() < old(self).spec_cards().len() ==> r == Some(
                old(self).spec_cards()[old(self).spec_index()],
            ) && final(self).spec_index() == old(self).spec_index() + 1,
            old(self).spec_index() >= old(self).spec_cards().len() ==> r is None
                && final(self).spec_index() == old(self).spec_index(),
    {
        if self.index < self.cards.len() {
            let c = self.cards[self.index];
            self.index = self.index + 1;
            Some(c)
        } else {
            None
        }
    }

    /// How many cards are still to come.
    pub fn len(&self) -> (n: usize)
        requires
            self.wf(),
        ensures
            n == self.spec_cards().len() - self.spec_index(),
    {
        self.cards.len() - self.index
    }
}

impl Hand {
    /// The cards of this hand, highest first.
    pub fn cards(&self) -> (out: Vec<Card>)
        ensures
            out@ == self.spec_cards(),
    {
        let mut v: Vec<Card> = Vec::new();
        match self {
            Hand::Pass => {},
            Hand::Lone(a) => {
                v.push(*a);
            },
            Hand::Pair(a, b) => {
                v.push(*a);
                v.push(*b);
            },
            Hand::Trips(a, b, c) => {
                v.push(*a);
                v.push(*b);
                v.push(*c);
            },
            Hand::Straight(a, b, c, d, e) => {
                v.push(*a);
                v.push(*b);
                v.push(*c);
                v.push(*d);
                v.push(*e);
            },
            Hand::Flush(a, b, c, d, e) => {
                v.push(*a);
                v.push(*b);
                v.push(*c);
                v.push(*d);
                v.push(*e);
            },
            Hand::FullHouse(a, b, c, d, e) => {
                v.push(*a);
                v.push(*b);
                v.push(*c);
                v.push(*d);
                v.push(*e);
            },
            Hand::FourPlusKick(a, b, c, d, e) => {
                v.push(*a);
                v.push(*b);
                v.push(*c);
                v.push(*d);
                v.push(*e);
            },
            Hand::StraightFlush(a, b, c, d, e) => {
                v.push(*a);
                v.push(*b);
                v.push(*c);
                v.push(*d);
                v.push(*e);
            },
        }
        proof {
            assert(v@ =~= self.spec_cards());
        }
        v
    }
}

} // verus!

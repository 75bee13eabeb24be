//! A standard-52 playing card: a rank together with a suit.

pub mod number;
pub mod rank;
pub mod suit;

use vstd::prelude::*;
use vstd::string::StringExecFns;

use crate::card::rank::{parse_rank_spec, rank_of_char, ParseRankError, Rank};
use crate::card::suit::{parse_suit_spec, suit_of_char, ParseSuitError, Suit};
use crate::text::chars_of;

verus! {

/// A playing card. A card's rank takes precedence over its suit,
/// so the suit only decides between two cards of equal rank.
#[derive(Debug, Clone, Copy, PartialEq, Eq, Hash, PartialOrd, Ord, Structural)]
pub struct Card {
    pub rank: Rank,
    pub suit: Suit,
}

/// The ways a string can fail to parse into a `Card`.
#[derive(Debug)]
pub enum ParseCardError {
    /// Empty string.
    Empty,
    /// Wrong number of characters.
    BadLength,
    /// The rank character was not understood.
    BadRank(ParseRankError),
    /// The suit character was not understood.
    BadSuit(ParseSuitError),
}

/// The card that opens every game: the Three of Clubs.
pub open spec fn spec_three_of_clubs() -> Card {
    Card { rank: Rank::Three, suit: Suit::Clubs }
}

/// The card that opens every game; the game may only begin with the
/// player that holds it.
#[verifier::when_used_as_spec(spec_three_of_clubs)]
pub fn three_of_clubs() -> (c: Card)
    ensures
        c == spec_three_of_clubs(),
{
    Card { rank: Rank::Three, suit: Suit::Clubs }
}

/// The two-character text encoding of a card: its rank character
/// followed by its suit character.
pub open spec fn card_text(c: Card) -> Seq<char> {
    seq![c.rank.to_char(), c.suit.to_char()]
}

/// What parsing a card from the given characters returns.
pub open spec fn parse_card_spec(s: Seq<char>) -> Result<Card, ParseCardError> {
    if s.len() == 0 {
        Err(ParseCardError::Empty)
    } else if s.len() != 2 {
        Err(ParseCardError::BadLength)
    } else {
        match parse_rank_spec(s.subrange(0, 1)) {
            Err(e) => Err(ParseCardError::BadRank(e)),
            Ok(rank) => match parse_suit_spec(s.subrange(1, 2)) {
                Err(e) => Err(ParseCardError::BadSuit(e)),
                Ok(suit) => Ok(Card { rank, suit }),
            },
        }
    }
}

impl Card {
    /// The strict order on cards: first by rank, with the suit
    /// deciding between two cards of equal rank.
    pub open spec fn lt_spec(self, other: Card) -> bool {
        self.rank.code() < other.rank.code() || (self.rank.code() == other.rank.code()
            && self.suit.code() < other.suit.code())
    }

    /// Decides the strict card order.
    pub fn lt(&self, other: &Card) -> (b: bool)
        ensures
            b == self.lt_spec(*other),
    {
        let a = self.rank.value();
        let b = other.rank.value();
        a < b || (a == b && self.suit.value() < other.suit.value())
    }

    /// How this card compares to another in the card order.
    pub open spec fn cmp_spec(self, other: Card) -> core::cmp::Ordering {
        if self.lt_spec(other) {
            core::cmp::Ordering::Less
        } else if other.lt_spec(self) {
            core::cmp::Ordering::Greater
        } else {
            core::cmp::Ordering::Equal
        }
    }

    /// Compares two cards in the card order.
    pub fn compare(&self, other: &Card) -> (o: core::cmp::Ordering)
        ensures
            o == self.cmp_spec(*other),
    {
        if self.lt(other) {
            core::cmp::Ordering::Less
        } else if other.lt(self) {
            core::cmp::Ordering::Greater
        } else {
            core::cmp::Ordering::Equal
        }
    }

    /// Serializes this card as its two-character text encoding.
    pub fn to_text(&self) -> (out: String)
        ensures
            out@ == card_text(*self),
    {
        let mut out = String::from_str(self.rank.token());
        out.append(self.suit.token());
        proof {
            assert(out@ =~= card_text(*self));
        }
        out
    }

    /// Parses a card from its two-character text encoding.
    pub fn parse(s: &str) -> (r: Result<Card, ParseCardError>)
        ensures
            r == parse_card_spec(s@),
    {
        let cs = chars_of(s);
        Card::parse_chars(&cs)
    }

    /// Parses a card from a two-character token.
    pub fn parse_chars(cs: &Vec<char>) -> (r: Result<Card, ParseCardError>)
        ensures
            r == parse_card_spec(cs@),
    {
        if cs.len() == 0 {
            Err(ParseCardError::Empty)
        } else if cs.len() != 2 {
            Err(ParseCardError::BadLength)
        } else {
            proof {
                assert(cs@.subrange(0, 1) =~= seq![cs@[0]]);
                assert(cs@.subrange(1, 2) =~= seq![cs@[1]]);
            }
            match Rank::from_char(cs[0]) {
                None => Err(ParseCardError::BadRank(ParseRankError::BadChar(cs[0]))),
                Some(rank) => match Suit::from_char(cs[1]) {
                    None => Err(ParseCardError::BadSuit(ParseSuitError::BadChar(cs[1]))),
                    Some(suit) => Ok(Card { rank, suit }),
                },
            }
        }
    }
}

/// Two distinct cards always compare strictly one way or the other:
/// the card order is total.
pub proof fn lemma_card_order_total(a: Card, b: Card)
    ensures
        a.lt_spec(b) || b.lt_spec(a) || a == b,
        !(a.lt_spec(b) && b.lt_spec(a)),
{
}

/// Any text that parses to a card is exactly that card's encoding,
/// so parsing and then serializing gives back the original token.
pub proof fn lemma_card_round_trip(s: Seq<char>, c: Card)
    requires
        parse_card_spec(s) == Ok::<Card, ParseCardError>(c),
    ensures
        card_text(c) == s,
{
    assert(s.len() == 2);
    assert(s.subrange(0, 1) =~= seq![s[0]]);
    assert(s.subrange(1, 2) =~= seq![s[1]]);
    assert(rank_of_char(s[0]) == Some(c.rank));
    assert(suit_of_char(s[1]) == Some(c.suit));
    assert(card_text(c) =~= s);
}

/// A card's encoding is two characters, neither of them whitespace.
pub proof fn lemma_card_text_shape(c: Card)
    ensures
        card_text(c).len() == 2,
        !crate::text::is_space(card_text(c)[0]),
        !crate::text::is_space(card_text(c)[1]),
{
}

/// A card's encoding parses back to the card itself.
pub proof fn lemma_card_text_parses(c: Card)
    ensures
        parse_card_spec(card_text(c)) == Ok::<Card, ParseCardError>(c),
{
    let s = card_text(c);
    assert(s.subrange(0, 1) =~= seq![s[0]]);
    assert(s.subrange(1, 2) =~= seq![s[1]]);
}

impl core::str::FromStr for Card {
    type Err = ParseCardError;

    fn from_str(s: &str) -> Result<Card, ParseCardError> {
        Card::parse(s)
    }
}

} // verus!

//! The suit on a card, ordered by the game's convention.

use vstd::prelude::*;
use vstd::string::StringExecFns;

use crate::text::chars_of;

verus! {

/// The suit on a card. The game orders the suits alphabetically:
/// Clubs is lowest and Spades is highest.
#[derive(Debug, Copy, Clone, PartialEq, Eq, Hash, PartialOrd, Ord, Structural)]
pub enum Suit {
    Clubs,
    Diamonds,
    Hearts,
    Spades,
}

/// The ways a string can fail to parse into a `Suit`.
#[derive(Debug)]
pub enum ParseSuitError {
    /// Empty string.
    Empty,
    /// More than one character.
    BadLength,
    /// A character that denotes no suit.
    BadChar(char),
}

/// The suit denoted by a character, if any.
pub open spec fn suit_of_char(c: char) -> Option<Suit> {
    if c == 'C' {
        Some(Suit::Clubs)
    } else if c == 'D' {
        Some(Suit::Diamonds)
    } else if c == 'H' {
        Some(Suit::Hearts)
    } else if c == 'S' {
        Some(Suit::Spades)
    } else {
        None
    }
}

/// What parsing a suit from the given characters returns.
pub open spec fn parse_suit_spec(s: Seq<char>) -> Result<Suit, ParseSuitError> {
    if s.len() == 0 {
        Err(ParseSuitError::Empty)
    } else if s.len() >= 2 {
        Err(ParseSuitError::BadLength)
    } else {
        match suit_of_char(s[0]) {
            Some(r) => Ok(r),
            None => Err(ParseSuitError::BadChar(s[0])),
        }
    }
}

impl Suit {
    /// Position of this suit in the game order: Clubs is 0 and Spades is 3.
    pub open spec fn code(self) -> int {
        match self {
            Suit::Clubs => 0,
            Suit::Diamonds => 1,
            Suit::Hearts => 2,
            Suit::Spades => 3,
        }
    }

    /// The character that denotes this suit in the text encoding.
    pub open spec fn to_char(self) -> char {
        match self {
            Suit::Clubs => 'C',
            Suit::Diamonds => 'D',
            Suit::Hearts => 'H',
            Suit::Spades => 'S',
        }
    }

    /// Runtime counterpart of `code`.
    pub fn value(&self) -> (v: u8)
        ensures
            v as int == self.code(),
    {
        match self {
            Suit::Clubs => 0,
            Suit::Diamonds => 1,
            Suit::Hearts => 2,
            Suit::Spades => 3,
        }
    }

    /// Runtime counterpart of `suit_of_char`.
    pub fn from_char(c: char) -> (r: Option<Suit>)
        ensures
            r == suit_of_char(c),
    {
        if c == 'C' {
            Some(Suit::Clubs)
        } else if c == 'D' {
            Some(Suit::Diamonds)
        } else if c == 'H' {
            Some(Suit::Hearts)
        } else if c == 'S' {
            Some(Suit::Spades)
        } else {
            None
        }
    }

    /// The one-character string that denotes this suit.
    pub(crate) fn token(&self) -> (s: &'static str)
        ensures
            s@ == seq![self.to_char()],
    {
        match self {
            Suit::Clubs => {
                proof {
                    reveal_strlit("C");
                }
                "C"
            }
            Suit::Diamonds => {
                proof {
                    reveal_strlit("D");
                }
                "D"
            }
            Suit::Hearts => {
                proof {
                    reveal_strlit("H");
                }
                "H"
            }
            Suit::Spades => {
                proof {
                    reveal_strlit("S");
                }
                "S"
            }
        }
    }

    /// Serializes this suit as its one-character text encoding.
    pub fn to_text(&self) -> (out: String)
        ensures
            out@ == seq![self.to_char()],
    {
        String::from_str(self.token())
    }

    /// Parses a suit from its one-character text encoding.
    pub fn parse(s: &str) -> (r: Result<Suit, ParseSuitError>)
        ensures
            r == parse_suit_spec(s@),
    {
        let cs = chars_of(s);
        if cs.len() == 0 {
            Err(ParseSuitError::Empty)
        } else if cs.len() >= 2 {
            Err(ParseSuitError::BadLength)
        } else {
            match Suit::from_char(cs[0]) {
                Some(r) => Ok(r),
                None => Err(ParseSuitError::BadChar(cs[0])),
            }
        }
    }

    /// Every suit, in ascending game order.
    pub fn all() -> (suits: [Suit; 4])
        ensures
            suits@ == seq![Suit::Clubs, Suit::Diamonds, Suit::Hearts, Suit::Spades],
    {
        [Suit::Clubs, Suit::Diamonds, Suit::Hearts, Suit::Spades]
    }
}

impl core::str::FromStr for Suit {
    type Err = ParseSuitError;

    fn from_str(s: &str) -> Result<Suit, ParseSuitError> {
        Suit::parse(s)
    }
}

} // verus!

//! An alternative labeling of card face values with its own text encoding.

use vstd::prelude::*;
use vstd::string::StringExecFns;

use crate::text::chars_of;

verus! {

/// A card face value, ordered as the game ranks them:
/// Three is lowest, then Four up through King, then Ace, and Two highest.
#[derive(Debug, Copy, Clone, PartialEq, Eq, Hash, PartialOrd, Ord, Structural)]
pub enum Number {
    Three,
    Four,
    Five,
    Six,
    Seven,
    Eight,
    Nine,
    Ten,
    Jack,
    Queen,
    King,
    Ace,
    Two,
}

/// The ways a string can fail to parse into a `Number`.
#[derive(Debug)]
pub enum ParseNumberError {
    /// Empty string.
    Empty,
    /// More than one character.
    BadLen,
    /// A character that denotes no number.
    BadChar(char),
}

/// The number denoted by a character, if any.
pub open spec fn number_of_char(c: char) -> Option<Number> {
    if c == '3' {
        Some(Number::Three)
    } else if c == '4' {
        Some(Number::Four)
    } else if c == '5' {
        Some(Number::Five)
    } else if c == '6' {
        Some(Number::Six)
    } else if c == '7' {
        Some(Number::Seven)
    } else if c == '8' {
        Some(Number::Eight)
    } else if c == '9' {
        Some(Number::Nine)
    } else if c == 'T' {
        Some(Number::Ten)
    } else if c == 'J' {
        Some(Number::Jack)
    } else if c == 'Q' {
        Some(Number::Queen)
    } else if c == 'K' {
        Some(Number::King)
    } else if c == 'A' {
        Some(Number::Ace)
    } else if c == '2' {
        Some(Number::Two)
    } else {
        None
    }
}

/// What parsing a number from the given characters returns.
pub open spec fn parse_number_spec(s: Seq<char>) -> Result<Number, ParseNumberError> {
    if s.len() == 0 {
        Err(ParseNumberError::Empty)
    } else if s.len() >= 2 {
        Err(ParseNumberError::BadLen)
    } else {
        match number_of_char(s[0]) {
            Some(r) => Ok(r),
            None => Err(ParseNumberError::BadChar(s[0])),
        }
    }
}

impl Number {
    /// The character that denotes this number in the text encoding.
    pub open spec fn to_char(self) -> char {
        match self {
            Number::Three => '3',
            Number::Four => '4',
            Number::Five => '5',
            Number::Six => '6',
            Number::Seven => '7',
            Number::Eight => '8',
            Number::Nine => '9',
            Number::Ten => 'T',
            Number::Jack => 'J',
            Number::Queen => 'Q',
            Number::King => 'K',
            Number::Ace => 'A',
            Number::Two => '2',
        }
    }

    /// Runtime counterpart of `number_of_char`.
    pub fn from_char(c: char) -> (r: Option<Number>)
        ensures
            r == number_of_char(c),
    {
        if c == '3' {
            Some(Number::Three)
        } else if c == '4' {
            Some(Number::Four)
        } else if c == '5' {
            Some(Number::Five)
        } else if c == '6' {
            Some(Number::Six)
        } else if c == '7' {
            Some(Number::Seven)
        } else if c == '8' {
            Some(Number::Eight)
        } else if c == '9' {
            Some(Number::Nine)
        } else if c == 'T' {
            Some(Number::Ten)
        } else if c == 'J' {
            Some(Number::Jack)
        } else if c == 'Q' {
            Some(Number::Queen)
        } else if c == 'K' {
            Some(Number::King)
        } else if c == 'A' {
            Some(Number::Ace)
        } else if c == '2' {
            Some(Number::Two)
        } else {
            None
        }
    }

    /// The one-character string that denotes this number.
    fn token(&self) -> (s: &'static str)
        ensures
            s@ == seq![self.to_char()],
    {
        match self {
            Number::Three => {
                proof {
                    reveal_strlit("3");
                }
                "3"
            }
            Number::Four => {
                proof {
                    reveal_strlit("4");
                }
                "4"
            }
            Number::Five => {
                proof {
                    reveal_strlit("5");
                }
                "5"
            }
            Number::Six => {
                proof {
                    reveal_strlit("6");
                }
                "6"
            }
            Number::Seven => {
                proof {
                    reveal_strlit("7");
                }
                "7"
            }
            Number::Eight => {
                proof {
                    reveal_strlit("8");
                }
                "8"
            }
            Number::Nine => {
                proof {
                    reveal_strlit("9");
                }
                "9"
            }
            Number::Ten => {
                proof {
                    reveal_strlit("T");
                }
                "T"
            }
            Number::Jack => {
                proof {
                    reveal_strlit("J");
                }
                "J"
            }
            Number::Queen => {
                proof {
                    reveal_strlit("Q");
                }
                "Q"
            }
            Number::King => {
                proof {
                    reveal_strlit("K");
                }
                "K"
            }
            Number::Ace => {
                proof {
                    reveal_strlit("A");
                }
                "A"
            }
            Number::Two => {
                proof {
                    reveal_strlit("2");
                }
                "2"
            }
        }
    }

    /// Serializes this number as its one-character text encoding.
    pub fn to_text(&self) -> (out: String)
        ensures
            out@ == seq![self.to_char()],
    {
        String::from_str(self.token())
    }

    /// Parses a number from its one-character text encoding.
    pub fn parse(s: &str) -> (r: Result<Number, ParseNumberError>)
        ensures
            r == parse_number_spec(s@),
    {
        let cs = chars_of(s);
        if cs.len() == 0 {
            Err(ParseNumberError::Empty)
        } else if cs.len() >= 2 {
            Err(ParseNumberError::BadLen)
        } else {
            match Number::from_char(cs[0]) {
                Some(r) => Ok(r),
                None => Err(ParseNumberError::BadChar(cs[0])),
            }
        }
    }
}

impl core::str::FromStr for Number {
    type Err = ParseNumberError;

    fn from_str(s: &str) -> Result<Number, ParseNumberError> {
        Number::parse(s)
    }
}

} // verus!

//! The face value of a card, ordered by the game's convention.

use vstd::prelude::*;
use vstd::string::StringExecFns;

use crate::text::chars_of;

verus! {

/// The face value of a card, ordered as the game ranks them:
/// Three is lowest, then Four up through King, then Ace, and Two highest.
#[derive(Debug, Copy, Clone, PartialEq, Eq, Hash, PartialOrd, Ord, Structural)]
pub enum Rank {
    Three,
    Four,
    Five,
    Six,
    Seven,
    Eight,
    Nine,
    Ten,
    Jack,
    Queen,
    King,
    Ace,
    Two,
}

/// The ways a string can fail to parse into a `Rank`.
#[derive(Debug)]
pub enum ParseRankError {
    /// Empty string.
    Empty,
    /// More than one character.
    BadLen,
    /// A character that denotes no rank.
    BadChar(char),
}

/// The rank denoted by a character, if any.
pub open spec fn rank_of_char(c: char) -> Option<Rank> {
    if c == '3' {
        Some(Rank::Three)
    } else if c == '4' {
        Some(Rank::Four)
    } else if c == '5' {
        Some(Rank::Five)
    } else if c == '6' {
        Some(Rank::Six)
    } else if c == '7' {
        Some(Rank::Seven)
    } else if c == '8' {
        Some(Rank::Eight)
    } else if c == '9' {
        Some(Rank::Nine)
    } else if c == 'T' {
        Some(Rank::Ten)
    } else if c == 'J' {
        Some(Rank::Jack)
    } else if c == 'Q' {
        Some(Rank::Queen)
    } else if c == 'K' {
        Some(Rank::King)
    } else if c == 'A' {
        Some(Rank::Ace)
    } else if c == '2' {
        Some(Rank::Two)
    } else {
        None
    }
}

/// What parsing a rank from the given characters returns.
pub open spec fn parse_rank_spec(s: Seq<char>) -> Result<Rank, ParseRankError> {
    if s.len() == 0 {
        Err(ParseRankError::Empty)
    } else if s.len() >= 2 {
        Err(ParseRankError::BadLen)
    } else {
        match rank_of_char(s[0]) {
            Some(r) => Ok(r),
            None => Err(ParseRankError::BadChar(s[0])),
        }
    }
}

impl Rank {
    /// Position of this rank in the game order: Three is 0 and Two is 12.
    pub open spec fn code(self) -> int {
        match self {
            Rank::Three => 0,
            Rank::Four => 1,
            Rank::Five => 2,
            Rank::Six => 3,
            Rank::Seven => 4,
            Rank::Eight => 5,
            Rank::Nine => 6,
            Rank::Ten => 7,
            Rank::Jack => 8,
            Rank::Queen => 9,
            Rank::King => 10,
            Rank::Ace => 11,
            Rank::Two => 12,
        }
    }

    /// The character that denotes this rank in the text encoding.
    pub open spec fn to_char(self) -> char {
        match self {
            Rank::Three => '3',
            Rank::Four => '4',
            Rank::Five => '5',
            Rank::Six => '6',
            Rank::Seven => '7',
            Rank::Eight => '8',
            Rank::Nine => '9',
            Rank::Ten => 'T',
            Rank::Jack => 'J',
            Rank::Queen => 'Q',
            Rank::King => 'K',
            Rank::Ace => 'A',
            Rank::Two => '2',
        }
    }

    /// Runtime counterpart of `code`.
    pub fn value(&self) -> (v: u8)
        ensures
            v as int == self.code(),
    {
        match self {
            Rank::Three => 0,
            Rank::Four => 1,
            Rank::Five => 2,
            Rank::Six => 3,
            Rank::Seven => 4,
            Rank::Eight => 5,
            Rank::Nine => 6,
            Rank::Ten => 7,
            Rank::Jack => 8,
            Rank::Queen => 9,
            Rank::King => 10,
            Rank::Ace => 11,
            Rank::Two => 12,
        }
    }

    /// Runtime counterpart of `rank_of_char`.
    pub fn from_char(c: char) -> (r: Option<Rank>)
        ensures
            r == rank_of_char(c),
    {
        if c == '3' {
            Some(Rank::Three)
        } else if c == '4' {
            Some(Rank::Four)
        } else if c == '5' {
            Some(Rank::Five)
        } else if c == '6' {
            Some(Rank::Six)
        } else if c == '7' {
            Some(Rank::Seven)
        } else if c == '8' {
            Some(Rank::Eight)
        } else if c == '9' {
            Some(Rank::Nine)
        } else if c == 'T' {
            Some(Rank::Ten)
        } else if c == 'J' {
            Some(Rank::Jack)
        } else if c == 'Q' {
            Some(Rank::Queen)
        } else if c == 'K' {
            Some(Rank::King)
        } else if c == 'A' {
            Some(Rank::Ace)
        } else if c == '2' {
            Some(Rank::Two)
        } else {
            None
        }
    }

    /// The one-character string that denotes this rank.
    pub(crate) fn token(&self) -> (s: &'static str)
        ensures
            s@ == seq![self.to_char()],
    {
        match self {
            Rank::Three => {
                proof {
                    reveal_strlit("3");
                }
                "3"
            }
            Rank::Four => {
                proof {
                    reveal_strlit("4");
                }
                "4"
            }
            Rank::Five => {
                proof {
                    reveal_strlit("5");
                }
                "5"
            }
            Rank::Six => {
                proof {
                    reveal_strlit("6");
                }
                "6"
            }
            Rank::Seven => {
                proof {
                    reveal_strlit("7");
                }
                "7"
            }
            Rank::Eight => {
                proof {
                    reveal_strlit("8");
                }
                "8"
            }
            Rank::Nine => {
                proof {
                    reveal_strlit("9");
                }
                "9"
            }
            Rank::Ten => {
                proof {
                    reveal_strlit("T");
                }
                "T"
            }
            Rank::Jack => {
                proof {
                    reveal_strlit("J");
                }
                "J"
            }
            Rank::Queen => {
                proof {
                    reveal_strlit("Q");
                }
                "Q"
            }
            Rank::King => {
                proof {
                    reveal_strlit("K");
                }
                "K"
            }
            Rank::Ace => {
                proof {
                    reveal_strlit("A");
                }
                "A"
            }
            Rank::Two => {
                proof {
                    reveal_strlit("2");
                }
                "2"
            }
        }
    }

    /// Serializes this rank as its one-character text encoding.
    pub fn to_text(&self) -> (out: String)
        ensures
            out@ == seq![self.to_char()],
    {
        String::from_str(self.token())
    }

    /// Parses a rank from its one-character text encoding.
    pub fn parse(s: &str) -> (r: Result<Rank, ParseRankError>)
        ensures
            r == parse_rank_spec(s@),
    {
        let cs = chars_of(s);
        if cs.len() == 0 {
            Err(ParseRankError::Empty)
        } else if cs.len() >= 2 {
            Err(ParseRankError::BadLen)
        } else {
            match Rank::from_char(cs[0]) {
                Some(r) => Ok(r),
                None => Err(ParseRankError::BadChar(cs[0])),
            }
        }
    }

    /// Every rank, in ascending game order.
    pub fn all() -> (ranks: [Rank; 13])
        ensures
            ranks@ == seq![
                Rank::Three,
                Rank::Four,
                Rank::Five,
                Rank::Six,
                Rank::Seven,
                Rank::Eight,
                Rank::Nine,
                Rank::Ten,
                Rank::Jack,
                Rank::Queen,
                Rank::King,
                Rank::Ace,
                Rank::Two,
            ],
    {
        [
            Rank::Three,
            Rank::Four,
            Rank::Five,
            Rank::Six,
            Rank::Seven,
            Rank::Eight,
            Rank::Nine,
            Rank::Ten,
            Rank::Jack,
            Rank::Queen,
            Rank::King,
            Rank::Ace,
            Rank::Two,
        ]
    }
}

impl core::str::FromStr for Rank {
    type Err = ParseRankError;

    fn from_str(s: &str) -> Result<Rank, ParseRankError> {
        Rank::parse(s)
    }
}

} // verus!

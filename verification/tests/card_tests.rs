use bigtwo::card::number::{Number, ParseNumberError};
use bigtwo::card::rank::{ParseRankError, Rank};
use bigtwo::card::suit::{ParseSuitError, Suit};
use bigtwo::card::{Card, ParseCardError};

#[test]
fn test_bad_card_to_from_string() {
    {
        let card = "".parse::<Card>();
        assert!(matches!(card, Err(ParseCardError::Empty)));
    }
    {
        let cell = "3CC".parse::<Card>();
        assert!(matches!(cell, Err(ParseCardError::BadLength)));
    }
    {
        let cell = "SD".parse::<Card>();
        assert!(matches!(cell, Err(ParseCardError::BadRank(_))));
    }
    {
        let cell = "3K".parse::<Card>();
        assert!(matches!(cell, Err(ParseCardError::BadSuit(_))));
    }
}

#[test]
fn test_good_card_to_from_string() {
    let good_cells = ["2S", "3C", "KD", "AH", "TS", "QC", "JD"];
    for expected_cell in good_cells {
        let cell = expected_cell.parse::<Card>();
        assert!(matches!(cell, Ok(_)));
        let result_cell = cell.unwrap().to_text();
        assert_eq!(expected_cell, result_cell);
    }
}

#[test]
fn test_card_order() {
    assert!("2S".parse::<Card>().unwrap() > "2D".parse::<Card>().unwrap());
    assert!("2S".parse::<Card>().unwrap() > "AS".parse::<Card>().unwrap());
    assert!("TD".parse::<Card>().unwrap() == "TD".parse::<Card>().unwrap());
}

#[test]
fn test_bad_number_to_from_string() {
    {
        let number = "".to_string().parse::<Number>();
        assert!(matches!(number, Err(ParseNumberError::Empty)));
    }
    {
        let number = "34".to_string().parse::<Number>();
        assert!(matches!(number, Err(ParseNumberError::BadLen)));
    }
    {
        let number = "R".to_string().parse::<Number>();
        assert!(matches!(number, Err(ParseNumberError::BadChar(_))));
    }
}

#[test]
fn test_good_number_to_from_string() {
    let good_numbers = ["3", "7", "J", "A", "2"];
    for expected_number in good_numbers {
        let number = expected_number.to_string().parse::<Number>();
        assert!(matches!(number, Ok(_)));
        let result_number = number.unwrap().to_text();
        assert_eq!(expected_number, result_number);
    }
}

#[test]
fn test_bad_rank_to_from_string() {
    {
        let rank = "".to_string().parse::<Rank>();
        assert!(matches!(rank, Err(ParseRankError::Empty)));
    }
    {
        let rank = "34".parse::<Rank>();
        assert!(matches!(rank, Err(ParseRankError::BadLen)));
    }
    {
        let rank = "R".parse::<Rank>();
        assert!(matches!(rank, Err(ParseRankError::BadChar(_))));
    }
}

#[test]
fn test_good_rank_to_from_string() {
    let good_ranks = ["3", "7", "J", "A", "2"];
    for expected_rank in good_ranks {
        let rank = expected_rank.parse::<Rank>();
        assert!(matches!(rank, Ok(_)));
        let result_rank = rank.unwrap().to_text();
        assert_eq!(expected_rank, result_rank);
    }
}

#[test]
fn test_bad_suit_to_from_string() {
    {
        let suit = "".parse::<Suit>();
        assert!(matches!(suit, Err(ParseSuitError::Empty)));
    }
    {
        let suit = "DD".parse::<Suit>();
        assert!(matches!(suit, Err(ParseSuitError::BadLength)));
    }
    {
        let suit = "T".parse::<Suit>();
        assert!(matches!(suit, Err(ParseSuitError::BadChar(_))));
    }
}

#[test]
fn test_good_suit_to_from_string() {
    let good_suits = ["C", "D", "H", "S"];
    for expected_suit in good_suits {
        let suit = expected_suit.parse::<Suit>();
        assert!(matches!(suit, Ok(_)));
        let result_suit = suit.unwrap().to_text();
        assert_eq!(expected_suit, result_suit);
    }
}

#[test]
fn test_rank_and_suit_all() {
    let ranks = Rank::all();
    assert_eq!(ranks.len(), 13);
    assert_eq!(ranks[0], Rank::Three);
    assert_eq!(ranks[12], Rank::Two);
    let suits = Suit::all();
    assert_eq!(suits.len(), 4);
    assert_eq!(suits[0], Suit::Clubs);
    assert_eq!(suits[3], Suit::Spades);
}

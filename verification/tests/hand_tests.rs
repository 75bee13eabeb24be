use std::cmp::Ordering;

use bigtwo::card::Card;
use bigtwo::hand::iter::HandIterator;
use bigtwo::hand::order::{order, order_four_plus_kick, order_full_house};
use bigtwo::hand::try_from::{InvalidHandError, ParseHandError};
use bigtwo::hand::Hand;

#[test]
fn test_index_and_iterator() {
    let hand: Hand = "2S AS KS QS JS".parse().unwrap();
    let cards: Vec<Card> = hand.cards();
    assert_eq!(cards.len(), 5);
    let mut it = HandIterator::new(&hand);
    assert_eq!(it.len(), 5);
    for i in 0..5 {
        assert_eq!(it.next(), Some(cards[i]));
    }
    assert_eq!(it.next(), None);
}

#[test]
fn test_check_hand_order() {
    // trivial match, Pass equals Pass
    assert!(matches!(
        order(&"".parse().unwrap(), &"".parse().unwrap()),
        Some(Ordering::Equal)
    ));

    // Single Comparisons
    assert!(matches!(
        order(&"3C".parse().unwrap(), &"3D".parse().unwrap()),
        Some(Ordering::Less)
    ));
    assert!(matches!(
        order(&"3D".parse().unwrap(), &"3C".parse().unwrap()),
        Some(Ordering::Greater)
    ));

    // Pair doesn't match Single
    assert!(matches!(
        order(&"4S 4D".parse().unwrap(), &"3D".parse().unwrap()),
        None
    ));

    // Flush beats Straight
    assert!(matches!(
        order(
            &"TC 8C 7C 5C 4C".parse().unwrap(),
            &"2S AS KC QC JS".parse().unwrap()
        ),
        Some(Ordering::Greater)
    ));

    // Flush does not match Trip
    assert!(matches!(
        order(
            &"TC 8C 7C 5C 4C".parse().unwrap(),
            &"2S 2D 2C".parse().unwrap()
        ),
        None
    ));

    // FullHouse Beats Flush
    assert!(matches!(
        order(
            &"TC 8C 7C 5C 4C".parse().unwrap(),
            &"7S 7D 7C 4H 4D".parse().unwrap()
        ),
        Some(Ordering::Less)
    ));

    // FullHouse uses Trips to compare
    assert!(matches!(
        order(
            &"2S 2D 7S 7D 7C".parse().unwrap(),
            &"8S 8D 8C 4H 4D".parse().unwrap()
        ),
        Some(Ordering::Less)
    ));
}

#[test]
fn test_full_house_order() {
    let a: Hand = "8S 8D 8C 4H 4D".parse().unwrap();
    let b: Hand = "2S 2D 7S 7D 7C".parse().unwrap();
    assert!(matches!(order_full_house(&a, &b), Ordering::Greater));
}

#[test]
fn test_four_plus_order() {
    let a: Hand = "8S 8H 8D 8C 4H".parse().unwrap();
    let b: Hand = "2S 7S 7H 7D 7C".parse().unwrap();
    assert!(matches!(order_four_plus_kick(&a, &b), Ordering::Greater));
}

#[test]
fn test_bad_hand_to_from_string() {
    let hand = "AJ".to_string().parse::<Hand>();
    assert!(matches!(hand, Err(ParseHandError::BadCard(_))));

    let hand = "7D 5C 4C 3".to_string().parse::<Hand>();
    assert!(matches!(hand, Err(ParseHandError::BadCard(_))));

    let hand = "7D 5C 4C 3C".to_string().parse::<Hand>();
    assert!(matches!(
        hand,
        Err(ParseHandError::InvalidHand(InvalidHandError::WrongQuantity))
    ));

    let hand = "3C 4D".to_string().parse::<Hand>();
    assert!(matches!(hand, Err(ParseHandError::NotSortedDescending)));

    let hand = "7D 3C 4C 5C 3C".to_string().parse::<Hand>();
    assert!(matches!(hand, Err(ParseHandError::DuplicateCard)));

    let hand = "2D 3S".to_string().parse::<Hand>();
    assert!(matches!(
        hand,
        Err(ParseHandError::InvalidHand(InvalidHandError::UnmatchedPair))
    ));

    let hand = "2S 2H 3S".to_string().parse::<Hand>();
    assert!(matches!(
        hand,
        Err(ParseHandError::InvalidHand(
            InvalidHandError::UnmatchedTrips
        ))
    ));

    let hand = "2S 2H 5S 4S 3D".to_string().parse::<Hand>();
    assert!(matches!(
        hand,
        Err(ParseHandError::InvalidHand(
            InvalidHandError::NotAFiveCardHand
        ))
    ));
}

#[test]
fn test_good_hand_to_from_string() {
    let good_hands = [
        "",
        "2S",
        "3D 3C",
        "KS KH KC",
        "8S 7D 6S 5C 4C",
        "AD TD 5D 4D 3D",
    ];
    for expected_hand in good_hands {
        let hand = expected_hand.to_string().parse::<Hand>();
        assert!(matches!(hand, Ok(_)));
        let result_hand = hand.unwrap().to_text();
        assert_eq!(expected_hand, result_hand);
    }
}

#[test]
fn test_five_card_classification() {
    assert!(matches!(
        "8S 7D 6S 5C 4C".parse::<Hand>(),
        Ok(Hand::Straight(..))
    ));
    assert!(matches!(
        "AD TD 5D 4D 3D".parse::<Hand>(),
        Ok(Hand::Flush(..))
    ));
    assert!(matches!(
        "8S 8D 8C 4H 4D".parse::<Hand>(),
        Ok(Hand::FullHouse(..))
    ));
    assert!(matches!(
        "2S 2D 7S 7D 7C".parse::<Hand>(),
        Ok(Hand::FullHouse(..))
    ));
    assert!(matches!(
        "8S 8H 8D 8C 4H".parse::<Hand>(),
        Ok(Hand::FourPlusKick(..))
    ));
    assert!(matches!(
        "2S 7S 7H 7D 7C".parse::<Hand>(),
        Ok(Hand::FourPlusKick(..))
    ));
    assert!(matches!(
        "7C 6C 5C 4C 3C".parse::<Hand>(),
        Ok(Hand::StraightFlush(..))
    ));
}

#[test]
fn test_same_variant_is_always_ordered() {
    let pairs = [
        ("4D", "4H"),
        ("5S 5H", "6D 6C"),
        ("9S 9H 9D", "3S 3H 3D"),
        ("8S 7D 6S 5C 4C", "7D 6H 5C 4H 3D"),
        ("AD TD 5D 4D 3D", "TC 8C 7C 5C 4C"),
        ("8S 8D 8C 4H 4D", "2S 2D 7S 7D 7C"),
        ("8S 8H 8D 8C 4H", "2S 7S 7H 7D 7C"),
        ("7C 6C 5C 4C 3C", "8D 7D 6D 5D 4D"),
    ];
    for (a, b) in pairs {
        let a: Hand = a.parse().unwrap();
        let b: Hand = b.parse().unwrap();
        assert!(order(&a, &b).is_some());
        assert!(order(&b, &a).is_some());
    }
}

#[test]
fn test_small_variants_never_match_others() {
    let small = ["2S", "4H 4D", "9S 9H 9D"];
    let others = ["", "3C", "5S 5H", "6S 6H 6D", "8S 7D 6S 5C 4C"];
    for a in small {
        for b in others {
            let ha: Hand = a.parse().unwrap();
            let hb: Hand = b.parse().unwrap();
            // every pairing of different variants here involves a
            // lone, pair or trips, so none of them compares
            if ha.cards().len() != hb.cards().len() {
                assert!(order(&ha, &hb).is_none());
                assert!(order(&hb, &ha).is_none());
            }
        }
    }
}

#[test]
fn test_category_precedence_chain() {
    let straight: Hand = "2S AS KC QC JS".parse().unwrap();
    let flush: Hand = "TC 8C 7C 5C 4C".parse().unwrap();
    let full_house: Hand = "4S 4H 4D 3H 3D".parse().unwrap();
    let four_kick: Hand = "5S 5H 5D 5C 3C".parse().unwrap();
    let straight_flush: Hand = "7C 6C 5C 4C 3C".parse().unwrap();
    let chain = [straight, flush, full_house, four_kick, straight_flush];
    for i in 0..chain.len() {
        for j in 0..chain.len() {
            if i < j {
                assert!(matches!(order(&chain[i], &chain[j]), Some(Ordering::Less)));
                assert!(matches!(
                    order(&chain[j], &chain[i]),
                    Some(Ordering::Greater)
                ));
            }
        }
    }
}

#[test]
fn test_four_plus_kicker_tie_break() {
    // a quad of 7s with a 2 kicker loses to a quad of 8s with a 4
    // kicker, despite the 2 being the single highest card involved
    let sevens: Hand = "2S 7S 7H 7D 7C".parse().unwrap();
    let eights: Hand = "8S 8H 8D 8C 4H".parse().unwrap();
    assert!(matches!(order(&sevens, &eights), Some(Ordering::Less)));
    assert!(matches!(order(&eights, &sevens), Some(Ordering::Greater)));
}

#[test]
fn test_full_house_tie_break_both_ways() {
    let trip_eights: Hand = "8S 8D 8C 4H 4D".parse().unwrap();
    let trip_sevens: Hand = "2S 2D 7S 7D 7C".parse().unwrap();
    assert!(matches!(
        order(&trip_eights, &trip_sevens),
        Some(Ordering::Greater)
    ));
    assert!(matches!(
        order(&trip_sevens, &trip_eights),
        Some(Ordering::Less)
    ));
}

#[test]
fn test_pass_serializes_empty() {
    let pass: Hand = "".parse().unwrap();
    assert!(matches!(pass, Hand::Pass));
    assert_eq!(pass.to_text(), "");
    assert_eq!(pass.cards().len(), 0);
}

#[test]
fn test_six_cards_rejected() {
    let hand = "9S 8S 7D 6S 5C 4C".parse::<Hand>();
    assert!(matches!(
        hand,
        Err(ParseHandError::InvalidHand(InvalidHandError::WrongQuantity))
    ));
}

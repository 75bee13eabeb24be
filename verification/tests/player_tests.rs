use bigtwo::card::rank::Rank;
use bigtwo::card::suit::Suit;
use bigtwo::card::Card;
use bigtwo::hand::Hand;
use bigtwo::player::ai::{play_smallest_single_or_pass, use_three_of_clubs};
use bigtwo::player::Player;

fn vec_card_from_str(s: &str) -> Vec<Card> {
    s.split_whitespace()
        .map(|token| token.parse::<Card>().unwrap())
        .collect()
}

const THREE_OF_CLUBS: Card = Card {
    rank: Rank::Three,
    suit: Suit::Clubs,
};

#[test]
fn test_has_cards() {
    let cards = vec_card_from_str("3C 3S 4H 4D 4S");
    let mut player = Player::default();
    player.cards = cards;

    let hand: Hand = "3C".parse().unwrap();
    assert!(player.has_cards(&hand));

    let hand: Hand = "3S 3C".parse().unwrap();
    assert!(player.has_cards(&hand));

    let hand: Hand = "4S 4H 4D".parse().unwrap();
    assert!(player.has_cards(&hand));

    let hand: Hand = "3D".parse().unwrap();
    assert!(!player.has_cards(&hand));

    let hand: Hand = "4S 4H 4C".parse().unwrap();
    assert!(!player.has_cards(&hand));
}

#[test]
fn test_remove_cards_from_hand() {
    let mut player = Player::default();
    player.cards = vec_card_from_str("3D 3S 5S 6S");
    player.remove_hand_from_cards(&"3S 3D".parse().unwrap());
    assert!(!player.cards.contains(&"3S".parse().unwrap()));
    assert!(!player.cards.contains(&"3D".parse().unwrap()));
    assert!(player.cards.contains(&"5S".parse().unwrap()));
    assert!(player.cards.contains(&"6S".parse().unwrap()));
}

#[test]
fn test_play_smallest_single_or_pass() {
    let hand_to_beat: Hand = "4H".parse().unwrap();
    let player_cards = vec_card_from_str("4D 4S 5C");
    let hand = play_smallest_single_or_pass(&hand_to_beat, &player_cards);
    assert!(matches!(
        hand,
        Hand::Lone(Card {
            rank: Rank::Four,
            suit: Suit::Spades
        })
    ));

    let hand_to_beat: Hand = "4H 4C".parse().unwrap();
    let player_cards = vec_card_from_str("4D 4S 5C");
    let hand = play_smallest_single_or_pass(&hand_to_beat, &player_cards);
    assert!(matches!(hand, Hand::Pass));

    let hand_to_beat: Hand = "6C".parse().unwrap();
    let player_cards = vec_card_from_str("4D 4S 5C");
    let hand = play_smallest_single_or_pass(&hand_to_beat, &player_cards);
    assert!(matches!(hand, Hand::Pass));
}

#[test]
fn test_use_three_of_clubs() {
    let cards = vec_card_from_str("3C 4C 5D 2S");
    let hand = use_three_of_clubs(&cards);
    assert!(matches!(hand, Hand::Lone(a) if a == THREE_OF_CLUBS));

    let cards = vec_card_from_str("3C 3D 5D 2S");
    let hand = use_three_of_clubs(&cards);
    assert!(matches!(hand, Hand::Pair(_, a) if a == THREE_OF_CLUBS));

    let cards = vec_card_from_str("3C 3D 3S 2S");
    let hand = use_three_of_clubs(&cards);
    assert!(matches!(hand, Hand::Trips(_, _, a) if a == THREE_OF_CLUBS));
}

#[test]
fn test_cards_to_string_decorates_tokens() {
    let cards = vec_card_from_str("3C TD 2S");
    assert_eq!(bigtwo::player::cards_to_string(&cards), "|3C||TD||2S|");
}

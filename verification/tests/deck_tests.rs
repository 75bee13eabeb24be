use std::collections::BTreeSet;

use bigtwo::card::Card;
use bigtwo::deck::Deck;

const NUM_CARDS_IN_DECK: usize = 52;

#[test]
fn test_new_deck() {
    let deck = Deck::new();
    assert_eq!(deck.cards.len(), NUM_CARDS_IN_DECK);
    let mut unique_cards: BTreeSet<Card> = BTreeSet::new();
    for card in deck.cards {
        unique_cards.insert(card);
    }
    assert_eq!(unique_cards.len(), NUM_CARDS_IN_DECK);
}

#[test]
fn test_new_deck_is_descending() {
    let deck = Deck::new();
    assert_eq!(deck.cards[0], "2S".parse::<Card>().unwrap());
    assert_eq!(deck.cards[51], "3C".parse::<Card>().unwrap());
    for i in 1..deck.cards.len() {
        assert!(deck.cards[i - 1] > deck.cards[i]);
    }
}

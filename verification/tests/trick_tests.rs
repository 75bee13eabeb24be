use bigtwo::card::Card;
use bigtwo::hand::Hand;
use bigtwo::player::ai::AiResponder;
use bigtwo::player::Player;
use bigtwo::trick::check_player_can_play_hand::{check_player_can_play_hand, PlayHandError};
use bigtwo::trick::next_player_id::next_player_id;
use bigtwo::trick::passed_players::PassedPlayers;
use bigtwo::trick::{perform_trick, StepStatus, Trick, TrickResult, NUM_PLAYERS};

fn vec_card_from_str(s: &str) -> Vec<Card> {
    s.split_whitespace()
        .map(|token| token.parse::<Card>().unwrap())
        .collect()
}

fn table(hands: [&str; 4]) -> Vec<Player> {
    hands
        .iter()
        .map(|h| Player {
            cards: vec_card_from_str(h),
        })
        .collect()
}

#[test]
fn test_check_player_can_play_hand() {
    // new trick begins with a Three of Clubs (ostensibly by player 0),
    let hand_to_beat = "3C".parse().unwrap();

    // player has a few cards
    let cards = vec_card_from_str("3C 3S 4H 4D 4S");
    let mut player = Player::default();
    player.cards = cards;

    // plays a Three of Spades
    let hand: Hand = "3S".parse().unwrap();
    let res = check_player_can_play_hand(&hand_to_beat, &player, &hand);
    assert!(matches!(res, Ok(())));

    // update hand
    let hand_to_beat = hand;

    // incorrectly plays a Three of Diamonds, a card they do not even
    // hold: ownership is checked before rank, so the rejection names
    // the stolen card rather than the insufficient rank
    let hand: Hand = "3D".parse().unwrap();
    let res = check_player_can_play_hand(&hand_to_beat, &player, &hand);
    assert!(matches!(res, Err(PlayHandError::StolenCards)));

    // plays a Three of Clubs they do hold, but it is too low
    let hand: Hand = "3C".parse().unwrap();
    let res = check_player_can_play_hand(&hand_to_beat, &player, &hand);
    assert!(matches!(res, Err(PlayHandError::TooLow)));

    // incorrectly plays a Pair of Fours, reject
    let hand: Hand = "4H 4D".parse().unwrap();
    let res = check_player_can_play_hand(&hand_to_beat, &player, &hand);
    assert!(matches!(res, Err(PlayHandError::NotMatching)));

    // incorrectly plays cards they don't have
    let hand: Hand = "2S".parse().unwrap();
    let res = check_player_can_play_hand(&hand_to_beat, &player, &hand);
    assert!(matches!(res, Err(PlayHandError::StolenCards)));

    // passes
    let hand: Hand = "".parse().unwrap();
    let res = check_player_can_play_hand(&hand_to_beat, &player, &hand);
    assert!(matches!(res, Ok(_)));
}

#[test]
fn test_five_card_hands() {
    let mut player = Player::default();
    let hand_to_beat: Hand = "7D 6H 5C 4H 3D".parse().unwrap();

    // loses
    let cards = vec_card_from_str("7C 6D 5H 4D 3S");
    let hand = Hand::try_from_cards(&cards[..]).unwrap();
    player.cards = cards;
    let res = check_player_can_play_hand(&hand_to_beat, &player, &hand);
    assert!(matches!(res, Err(PlayHandError::TooLow)));

    // wins
    let cards = vec_card_from_str("7S 6D 5H 4D 3S");
    let hand = Hand::try_from_cards(&cards[..]).unwrap();
    player.cards = cards;
    let res = check_player_can_play_hand(&hand_to_beat, &player, &hand);
    assert!(matches!(res, Ok(_)));

    // ensure that lones, pairs, and trips cannot play on fivers
    let not_matching_hands = ["2S", "2S 2H", "2S 2H 2D"];
    let cards = vec_card_from_str("2S 2H 2D");
    player.cards = cards;
    for hand in not_matching_hands {
        let hand: Hand = hand.parse().unwrap();
        let res = check_player_can_play_hand(&hand_to_beat, &player, &hand);
        assert!(matches!(res, Err(PlayHandError::NotMatching)));
    }
}

#[test]
fn test_equal_hand_is_too_low() {
    // a play must compare strictly above the hand to beat
    let mut player = Player::default();
    player.cards = vec_card_from_str("3S");
    let hand_to_beat: Hand = "3S".parse().unwrap();
    let attempt: Hand = "3S".parse().unwrap();
    let res = check_player_can_play_hand(&hand_to_beat, &player, &attempt);
    assert!(matches!(res, Err(PlayHandError::TooLow)));
}

#[test]
fn test_next_player_id() {
    let current: usize = 0;
    let has_passed = PassedPlayers::new(NUM_PLAYERS);
    let next = next_player_id(current, &has_passed, NUM_PLAYERS);
    assert_eq!(next, 1);

    let current: usize = 3;
    let has_passed = PassedPlayers::new(NUM_PLAYERS);
    let next = next_player_id(current, &has_passed, NUM_PLAYERS);
    assert_eq!(next, 0);

    let current: usize = 0;
    let mut has_passed = PassedPlayers::new(NUM_PLAYERS);
    has_passed.insert(1);
    has_passed.insert(2);
    let next = next_player_id(current, &has_passed, NUM_PLAYERS);
    assert_eq!(next, 3);

    let current: usize = 2;
    let mut has_passed = PassedPlayers::new(NUM_PLAYERS);
    has_passed.insert(0);
    has_passed.insert(3);
    let next = next_player_id(current, &has_passed, NUM_PLAYERS);
    assert_eq!(next, 1);
}

#[test]
fn test_trick_start() {
    // setup a trick where NUM_PLAYERS players are dealt cards, P1
    // initializes the Trick with 3C, P2 is next
    let mut responder = AiResponder;
    let mut players = table(["AS", "3C 4D 7S 8D", "3H", "7D"]);
    let starting_player_id: usize = 1;
    let trick: Trick = Trick::start(starting_player_id, &mut players, &mut responder, true);
    assert!(matches!(trick.is_trick_over(&players), StepStatus::Continue));

    match trick.played_hands.last().unwrap() {
        Hand::Lone(a) => assert_eq!(a, &"3C".parse().unwrap()),
        a => panic!("{:?}", a),
    }
    assert_eq!(trick.passed_player_ids.len(), 0);
    assert_eq!(trick.current_player_id, 2);
    assert_eq!(players[starting_player_id].cards.len(), 3);

    // setup a trick where NUM_PLAYERS players are dealt cards, P1
    // initializes the Trick with 4D, P2 is next
    let mut players = table(["AS", "4D 7S", "3H", "7D"]);
    let starting_player_id: usize = 1;
    let trick: Trick = Trick::start(starting_player_id, &mut players, &mut responder, false);
    assert!(matches!(trick.is_trick_over(&players), StepStatus::Continue));

    match trick.played_hands.last().unwrap() {
        Hand::Lone(a) => assert_eq!(a, &"4D".parse().unwrap()),
        a => panic!("{:?}", a),
    }
    assert_eq!(trick.passed_player_ids.len(), 0);
    assert_eq!(trick.current_player_id, 2);
    assert_eq!(players[starting_player_id].cards.len(), 1);

    // setup a trick where the starting player will win as soon as they
    // initialize the trick
    let mut players = table(["2S", "3D", "3H", "7D"]);
    let starting_player_id: usize = 2;
    let trick = Trick::start(starting_player_id, &mut players, &mut responder, false);
    assert!(
        matches!(trick.is_trick_over(&players), StepStatus::GameOver(p) if p == starting_player_id)
    );
    assert_eq!(trick.passed_player_ids.len(), 0);
    assert_eq!(trick.current_player_id, 3);
    assert_eq!(players[starting_player_id].cards.len(), 0);
}

#[test]
fn test_trick_start_step_trick_over() {
    // setup a trick where NUM_PLAYERS players are dealt cards, P0
    // initializes the Trick with 6D, P1 is next
    let mut responder = AiResponder;
    let mut players = table(["6D AS 2S", "3D 4H", "3H 4D", "7D 4S"]);
    let starting_player_id: usize = 0;
    let mut trick: Trick = Trick::start(starting_player_id, &mut players, &mut responder, false);
    assert!(matches!(trick.is_trick_over(&players), StepStatus::Continue));

    // P1 must pass, then P2
    trick.do_player_turn(&mut players, &mut responder);
    assert!(matches!(trick.is_trick_over(&players), StepStatus::Continue));
    match trick.played_hands.last().unwrap() {
        Hand::Lone(a) => assert_eq!(a, &"6D".parse().unwrap()),
        a => panic!("{:?}", a),
    }
    assert_eq!(trick.passed_player_ids.len(), 1);
    assert!(trick.passed_player_ids.contains(1));
    assert_eq!(trick.current_player_id, 2);

    // P2 must pass, then P3
    trick.do_player_turn(&mut players, &mut responder);
    assert!(matches!(trick.is_trick_over(&players), StepStatus::Continue));
    match trick.played_hands.last().unwrap() {
        Hand::Lone(a) => assert_eq!(a, &"6D".parse().unwrap()),
        a => panic!("{:?}", a),
    }
    assert_eq!(trick.passed_player_ids.len(), 2);
    assert!(trick.passed_player_ids.contains(1));
    assert!(trick.passed_player_ids.contains(2));
    assert_eq!(trick.current_player_id, 3);

    // P3 plays 7D, then to P0
    trick.do_player_turn(&mut players, &mut responder);
    assert!(matches!(trick.is_trick_over(&players), StepStatus::Continue));
    match trick.played_hands.last().unwrap() {
        Hand::Lone(a) => assert_eq!(a, &"7D".parse().unwrap()),
        a => panic!("{:?}", a),
    }
    assert_eq!(trick.passed_player_ids.len(), 2);
    assert!(trick.passed_player_ids.contains(1));
    assert!(trick.passed_player_ids.contains(2));
    assert_eq!(trick.current_player_id, 0);

    // P0 plays Ace of Spades, then to P3 (skipping P1 and P2 who passed)
    trick.do_player_turn(&mut players, &mut responder);
    assert!(matches!(trick.is_trick_over(&players), StepStatus::Continue));
    match trick.played_hands.last().unwrap() {
        Hand::Lone(a) => assert_eq!(a, &"AS".parse().unwrap()),
        a => panic!("{:?}", a),
    }
    assert_eq!(trick.passed_player_ids.len(), 2);
    assert!(trick.passed_player_ids.contains(1));
    assert!(trick.passed_player_ids.contains(2));
    assert_eq!(trick.current_player_id, 3);

    // P3 passes, Trick is Over and P0 won the Trick
    trick.do_player_turn(&mut players, &mut responder);
    match trick.is_trick_over(&players) {
        StepStatus::TrickOver(winner) => assert_eq!(winner, 0),
        a => panic!("{:?}", a),
    }
    match trick.played_hands.last().unwrap() {
        Hand::Lone(a) => assert_eq!(a, &"AS".parse().unwrap()),
        a => panic!("{:?}", a),
    }
    assert_eq!(trick.passed_player_ids.len(), 3);
    assert!(trick.passed_player_ids.contains(1));
    assert!(trick.passed_player_ids.contains(2));
    assert!(trick.passed_player_ids.contains(3));
    assert_eq!(trick.current_player_id, 0);
}

#[test]
fn test_trick_start_step_game_over() {
    // setup a trick where NUM_PLAYERS players are dealt cards, P0
    // initializes the Trick with 6D, P1 is next
    let mut responder = AiResponder;
    let mut players = table(["6D AS", "3D 4H", "3H 4D", "7D 4S"]);
    let starting_player_id: usize = 0;
    let mut trick: Trick = Trick::start(starting_player_id, &mut players, &mut responder, false);
    assert!(matches!(trick.is_trick_over(&players), StepStatus::Continue));

    // P1 must pass, then P2
    trick.do_player_turn(&mut players, &mut responder);
    assert!(matches!(trick.is_trick_over(&players), StepStatus::Continue));
    match trick.played_hands.last().unwrap() {
        Hand::Lone(a) => assert_eq!(a, &"6D".parse().unwrap()),
        a => panic!("{:?}", a),
    }
    assert_eq!(trick.passed_player_ids.len(), 1);
    assert!(trick.passed_player_ids.contains(1));
    assert_eq!(trick.current_player_id, 2);

    // P2 must pass, then P3
    trick.do_player_turn(&mut players, &mut responder);
    assert!(matches!(trick.is_trick_over(&players), StepStatus::Continue));
    match trick.played_hands.last().unwrap() {
        Hand::Lone(a) => assert_eq!(a, &"6D".parse().unwrap()),
        a => panic!("{:?}", a),
    }
    assert_eq!(trick.passed_player_ids.len(), 2);
    assert!(trick.passed_player_ids.contains(1));
    assert!(trick.passed_player_ids.contains(2));
    assert_eq!(trick.current_player_id, 3);

    // P3 plays 7D, then to P0
    trick.do_player_turn(&mut players, &mut responder);
    assert!(matches!(trick.is_trick_over(&players), StepStatus::Continue));
    match trick.played_hands.last().unwrap() {
        Hand::Lone(a) => assert_eq!(a, &"7D".parse().unwrap()),
        a => panic!("{:?}", a),
    }
    assert_eq!(trick.passed_player_ids.len(), 2);
    assert!(trick.passed_player_ids.contains(1));
    assert!(trick.passed_player_ids.contains(2));
    assert_eq!(trick.current_player_id, 0);

    // P0 plays Ace of Spades, Game is now over!
    trick.do_player_turn(&mut players, &mut responder);
    assert!(
        matches!(trick.is_trick_over(&players), StepStatus::GameOver(p) if p == starting_player_id)
    );
    match trick.played_hands.last().unwrap() {
        Hand::Lone(a) => assert_eq!(a, &"AS".parse().unwrap()),
        a => panic!("{:?}", a),
    }
    assert_eq!(trick.passed_player_ids.len(), 2);
    assert!(trick.passed_player_ids.contains(1));
    assert!(trick.passed_player_ids.contains(2));
    assert_eq!(trick.current_player_id, 3);
}

#[test]
fn test_trick_end_to_end_winner_keeps_remaining_cards() {
    // the whole trick of the step-by-step scenario in one call:
    // P0 wins the trick and still holds exactly the Two of Spades
    let mut responder = AiResponder;
    let mut players = table(["6D AS 2S", "3D 4H", "3H 4D", "7D 4S"]);
    let result = perform_trick(0, &mut players, &mut responder, false);
    assert!(matches!(result, TrickResult::NewTrick(0)));
    assert_eq!(players[0].cards, vec_card_from_str("2S"));
}

#[test]
fn test_game_over_on_opening_play() {
    // the starting player goes out on the very opening hand: the trick
    // reports the game over at once, with nobody having passed
    let mut responder = AiResponder;
    let mut players = table(["4D 4H", "5D 6H", "5H", "7D 8S"]);
    let result = perform_trick(2, &mut players, &mut responder, false);
    assert!(matches!(result, TrickResult::GameOver(2)));
    assert_eq!(players[2].cards.len(), 0);
}

//! Building a validated hand out of cards, and parsing one from text.

use vstd::prelude::*;

use crate::card::{card_text, parse_card_spec, Card, ParseCardError};
use crate::hand::{
    cards_text, consecutive5, desc5, four_kick5, full_house5, hand_text, same_suit5, Hand,
};
use crate::text::{
    chars_of, join_sp, lemma_join_split, lemma_trim_id, split_chars, split_sp, trim_chars,
    trim_sp,
};

verus! {

/// The ways a string can fail to parse into a reasonable hand.
#[derive(Debug)]
pub enum ParseHandError {
    /// One of the card tokens did not parse.
    BadCard(ParseCardError),
    /// A single deck holds only one of each card.
    DuplicateCard,
    /// The cards must be given in descending order.
    NotSortedDescending,
    /// Every card parsed, in the correct order, but the result is not
    /// a valid hand.
    InvalidHand(InvalidHandError),
}

/// The ways valid cards can fail to combine into a valid hand.
#[derive(Debug)]
pub enum InvalidHandError {
    /// Two cards of different rank.
    UnmatchedPair,
    /// Three cards, at least one of a different rank.
    UnmatchedTrips,
    /// An impossible number of cards (zero is a pass, four or more
    /// than five fit no variant).
    WrongQuantity,
    /// Five cards that form none of the five-card variants.
    NotAFiveCardHand,
}

/// What combining two descending cards returns.
pub open spec fn pair_spec(first: Card, second: Card) -> Result<Hand, InvalidHandError> {
    if first.rank == second.rank {
        Ok(Hand::Pair(first, second))
    } else {
        Err(InvalidHandError::UnmatchedPair)
    }
}

/// What combining three descending cards returns.
pub open spec fn trips_spec(first: Card, second: Card, third: Card) -> Result<
    Hand,
    InvalidHandError,
> {
    if first.rank == second.rank && second.rank == third.rank {
        Ok(Hand::Trips(first, second, third))
    } else {
        Err(InvalidHandError::UnmatchedTrips)
    }
}

/// What classifying five descending cards returns. A straight flush is
/// recognized before a plain straight or flush, and the grouped shapes
/// before the generic five-card fallthrough.
pub open spec fn fiver_spec(a: Card, b: Card, c: Card, d: Card, e: Card) -> Result<
    Hand,
    InvalidHandError,
> {
    if consecutive5(a, b, c, d, e) && same_suit5(a, b, c, d, e) {
        Ok(Hand::StraightFlush(a, b, c, d, e))
    } else if full_house5(a, b, c, d, e) {
        Ok(Hand::FullHouse(a, b, c, d, e))
    } else if four_kick5(a, b, c, d, e) {
        Ok(Hand::FourPlusKick(a, b, c, d, e))
    } else if consecutive5(a, b, c, d, e) {
        Ok(Hand::Straight(a, b, c, d, e))
    } else if same_suit5(a, b, c, d, e) {
        Ok(Hand::Flush(a, b, c, d, e))
    } else {
        Err(InvalidHandError::NotAFiveCardHand)
    }
}

/// Lifts a structural error into the parse error type.
pub open spec fn lift_invalid(r: Result<Hand, InvalidHandError>) -> Result<Hand, ParseHandError> {
    match r {
        Ok(h) => Ok(h),
        Err(e) => Err(ParseHandError::InvalidHand(e)),
    }
}

/// Two equal cards somewhere in the sequence.
pub open spec fn has_dup(s: Seq<Card>) -> bool {
    exists|i: int, j: int| 0 <= i < j < s.len() && s[i] == s[j]
}

/// No card is strictly below its successor.
pub open spec fn non_increasing(s: Seq<Card>) -> bool {
    forall|i: int| 1 <= i < s.len() ==> !s[i - 1].lt_spec(#[trigger] s[i])
}

/// Each card is strictly above its successor.
pub open spec fn adj_desc(s: Seq<Card>) -> bool {
    forall|i: int| 1 <= i < s.len() ==> (#[trigger] s[i]).lt_spec(s[i - 1])
}

/// What checking a card sequence for coherence returns: a duplicate is
/// reported first, then an ordering violation.
pub open spec fn sanitize_spec(s: Seq<Card>) -> Result<(), ParseHandError> {
    if has_dup(s) {
        Err(ParseHandError::DuplicateCard)
    } else if !non_increasing(s) {
        Err(ParseHandError::NotSortedDescending)
    } else {
        Ok(())
    }
}

/// A coherent sequence is strictly descending.
pub proof fn lemma_sanitize_desc(s: Seq<Card>)
    requires
        sanitize_spec(s) is Ok,
    ensures
        adj_desc(s),
{
    assert forall|i: int| 1 <= i < s.len() implies (#[trigger] s[i]).lt_spec(s[i - 1]) by {
        assert(!s[i - 1].lt_spec(s[i]));
        if s[i - 1] == s[i] {
            assert(0 <= i - 1 < i < s.len() && s[i - 1] == s[i]);
            assert(has_dup(s));
        }
    }
}

/// What turning a descending card sequence into a hand returns.
pub open spec fn try_from_cards_spec(s: Seq<Card>) -> Result<Hand, ParseHandError> {
    if s.len() == 0 {
        Ok(Hand::Pass)
    } else if s.len() == 1 {
        Ok(Hand::Lone(s[0]))
    } else if s.len() == 2 {
        lift_invalid(pair_spec(s[0], s[1]))
    } else if s.len() == 3 {
        lift_invalid(trips_spec(s[0], s[1], s[2]))
    } else if s.len() == 5 {
        lift_invalid(fiver_spec(s[0], s[1], s[2], s[3], s[4]))
    } else {
        Err(ParseHandError::InvalidHand(InvalidHandError::WrongQuantity))
    }
}

/// A hand built from a descending card sequence is valid and holds
/// exactly those cards.
pub proof fn lemma_try_from_cards_ok(s: Seq<Card>, h: Hand)
    requires
        adj_desc(s),
        try_from_cards_spec(s) == Ok::<Hand, ParseHandError>(h),
    ensures
        h.wf(),
        h.spec_cards() == s,
{
    if s.len() == 0 {
        assert(h.spec_cards() =~= s);
    } else if s.len() == 1 {
        assert(h.spec_cards() =~= s);
    } else if s.len() == 2 {
        assert(s[1].lt_spec(s[0]));
        assert(h.spec_cards() =~= s);
    } else if s.len() == 3 {
        assert(h.spec_cards() =~= s);
    } else if s.len() == 5 {
        assert(h.spec_cards() =~= s);
    }
}

/// What parsing each token as a card returns: the cards in order, or
/// the first token's error.
pub open spec fn parse_cards_spec(ts: Seq<Seq<char>>) -> Result<Seq<Card>, ParseCardError>
    decreases ts.len(),
{
    if ts.len() == 0 {
        Ok(Seq::<Card>::empty())
    } else {
        match parse_card_spec(ts[0]) {
            Err(e) => Err(e),
            Ok(c) => match parse_cards_spec(ts.drop_first()) {
                Err(e) => Err(e),
                Ok(cs) => Ok(seq![c] + cs),
            },
        }
    }
}

/// When every token parses, the whole list parses to those cards.
pub proof fn lemma_parse_cards_ok(ts: Seq<Seq<char>>, cs: Seq<Card>)
    requires
        ts.len() == cs.len(),
        forall|k: int|
            0 <= k < ts.len() ==> parse_card_spec(ts[k]) == Ok::<Card, ParseCardError>(
                #[trigger] cs[k],
            ),
    ensures
        parse_cards_spec(ts) == Ok::<Seq<Card>, ParseCardError>(cs),
    decreases ts.len(),
{
    if ts.len() > 0 {
        assert forall|k: int| 0 <= k < ts.drop_first().len() implies parse_card_spec(
            ts.drop_first()[k],
        ) == Ok::<Card, ParseCardError>(#[trigger] cs.drop_first()[k]) by {
            assert(ts.drop_first()[k] == ts[k + 1]);
            assert(cs.drop_first()[k] == cs[k + 1]);
        }
        lemma_parse_cards_ok(ts.drop_first(), cs.drop_first());
        assert(seq![cs[0]] + cs.drop_first() =~= cs);
    } else {
        assert(cs =~= Seq::<Card>::empty());
    }
}

/// When the first failing token fails with `e`, the list fails with `e`.
pub proof fn lemma_parse_cards_err(ts: Seq<Seq<char>>, i: int, e: ParseCardError)
    requires
        0 <= i < ts.len(),
        forall|k: int| 0 <= k < i ==> parse_card_spec(#[trigger] ts[k]) is Ok,
        parse_card_spec(ts[i]) == Err::<Card, ParseCardError>(e),
    ensures
        parse_cards_spec(ts) == Err::<Seq<Card>, ParseCardError>(e),
    decreases ts.len(),
{
    if i > 0 {
        lemma_parse_cards_err(ts.drop_first(), i - 1, e);
    }
}

/// What parsing a hand from text returns: trim the ends, split on
/// spaces, parse every token as a card, check coherence, and classify.
pub open spec fn parse_hand_spec(s: Seq<char>) -> Result<Hand, ParseHandError> {
    let t = trim_sp(s);
    if t.len() == 0 {
        Ok(Hand::Pass)
    } else {
        match parse_cards_spec(split_sp(t)) {
            Err(e) => Err(ParseHandError::BadCard(e)),
            Ok(cs) => match sanitize_spec(cs) {
                Err(e) => Err(e),
                Ok(_) => try_from_cards_spec(cs),
            },
        }
    }
}

impl Hand {
    /// Combines two descending cards into a pair.
    pub fn try_pair(first: Card, second: Card) -> (r: Result<Hand, InvalidHandError>)
        requires
            second.lt_spec(first),
        ensures
            r == pair_spec(first, second),
    {
        if first.rank.value() == second.rank.value() {
            Ok(Hand::Pair(first, second))
        } else {
            Err(InvalidHandError::UnmatchedPair)
        }
    }

    /// Combines three descending cards into a three-of-a-kind.
    pub fn try_trips(first: Card, second: Card, third: Card) -> (r: Result<
        Hand,
        InvalidHandError,
    >)
        requires
            third.lt_spec(second),
            second.lt_spec(first),
        ensures
            r == trips_spec(first, second, third),
    {
        if first.rank.value() == second.rank.value() && second.rank.value()
            == third.rank.value() {
            Ok(Hand::Trips(first, second, third))
        } else {
            Err(InvalidHandError::UnmatchedTrips)
        }
    }

    /// Classifies five descending cards as one of the five-card hands.
    pub fn try_fiver(first: Card, second: Card, third: Card, fourth: Card, fifth: Card) -> (r:
        Result<Hand, InvalidHandError>)
        requires
            desc5(first, second, third, fourth, fifth),
        ensures
            r == fiver_spec(first, second, third, fourth, fifth),
    {
        let straight = Hand::check_straight(&first, &second, &third, &fourth, &fifth);
        let flush = Hand::check_flush(&first, &second, &third, &fourth, &fifth);
        if straight && flush {
            Ok(Hand::StraightFlush(first, second, third, fourth, fifth))
        } else if Hand::check_full_house(&first, &second, &third, &fourth, &fifth) {
            Ok(Hand::FullHouse(first, second, third, fourth, fifth))
        } else if Hand::check_four_kick(&first, &second, &third, &fourth, &fifth) {
            Ok(Hand::FourPlusKick(first, second, third, fourth, fifth))
        } else if straight {
            Ok(Hand::Straight(first, second, third, fourth, fifth))
        } else if flush {
            Ok(Hand::Flush(first, second, third, fourth, fifth))
        } else {
            Err(InvalidHandError::NotAFiveCardHand)
        }
    }

    /// Whether five descending cards step down by exactly one in rank.
    pub fn check_straight(first: &Card, second: &Card, third: &Card, fourth: &Card, fifth: &Card)
        -> (b: bool)
        ensures
            b == consecutive5(*first, *second, *third, *fourth, *fifth),
    {
        first.rank.value() == second.rank.value() + 1 && second.rank.value()
            == third.rank.value() + 1 && third.rank.value() == fourth.rank.value() + 1
            && fourth.rank.value() == fifth.rank.value() + 1
    }

    /// Whether five cards are all of one suit.
    pub fn check_flush(first: &Card, second: &Card, third: &Card, fourth: &Card, fifth: &Card)
        -> (b: bool)
        ensures
            b == same_suit5(*first, *second, *third, *fourth, *fifth),
    {
        first.suit.value() == second.suit.value() && second.suit.value() == third.suit.value()
            && third.suit.value() == fourth.suit.value() && fourth.suit.value()
            == fifth.suit.value()
    }

    /// Whether five descending cards are a trip and a pair.
    fn check_full_house(first: &Card, second: &Card, third: &Card, fourth: &Card, fifth: &Card)
        -> (b: bool)
        ensures
            b == full_house5(*first, *second, *third, *fourth, *fifth),
    {
        let ab = first.rank.value() == second.rank.value();
        let bc = second.rank.value() == third.rank.value();
        let cd = third.rank.value() == fourth.rank.value();
        let de = fourth.rank.value() == fifth.rank.value();
        (ab && bc && de && !cd) || (ab && cd && de && !bc)
    }

    /// Whether five descending cards are a quad and a kicker.
    fn check_four_kick(first: &Card, second: &Card, third: &Card, fourth: &Card, fifth: &Card)
        -> (b: bool)
        ensures
            b == four_kick5(*first, *second, *third, *fourth, *fifth),
    {
        let ab = first.rank.value() == second.rank.value();
        let bc = second.rank.value() == third.rank.value();
        let cd = third.rank.value() == fourth.rank.value();
        let de = fourth.rank.value() == fifth.rank.value();
        (ab && bc && cd && !de) || (bc && cd && de && !ab)
    }

    /// Checks a card sequence for duplicates and for descending order.
    pub fn sanitize_cards(cards: &[Card]) -> (r: Result<(), ParseHandError>)
        ensures
            r == sanitize_spec(cards@),
    {
        let n = cards.len();
        let mut i: usize = 0;
        while i < n
            invariant
                0 <= i <= n == cards@.len(),
                forall|a: int, b: int| 0 <= a < i && a < b < n ==> cards@[a] != cards@[b],
            decreases n - i,
        {
            let mut j: usize = i + 1;
            while j < n
                invariant
                    0 <= i < j <= n == cards@.len(),
                    forall|a: int, b: int| 0 <= a < i && a < b < n ==> cards@[a] != cards@[b],
                    forall|b: int| i < b < j ==> cards@[i as int] != cards@[b],
                decreases n - j,
            {
                if cards[i] == cards[j] {
                    assert(has_dup(cards@));
                    return Err(ParseHandError::DuplicateCard);
                }
                j = j + 1;
            }
            i = i + 1;
        }
        assert(!has_dup(cards@));
        let mut k: usize = 1;
        while k < n
            invariant
                1 <= k <= n == cards@.len() || (n == 0 && k == 1),
                !has_dup(cards@),
                forall|b: int| 1 <= b < k ==> !cards@[b - 1].lt_spec(#[trigger] cards@[b]),
            decreases n - k,
        {
            if cards[k - 1].lt(&cards[k]) {
                return Err(ParseHandError::NotSortedDescending);
            }
            k = k + 1;
        }
        Ok(())
    }

    /// Turns a slice of descending cards into a hand, or reports why
    /// the cards form none.
    pub fn try_from_cards(cards: &[Card]) -> (r: Result<Hand, ParseHandError>)
        requires
            cards@.len() == 2 || cards@.len() == 3 || cards@.len() == 5 ==> adj_desc(cards@),
        ensures
            r == try_from_cards_spec(cards@),
    {
        let n = cards.len();
        if n == 0 {
            Ok(Hand::Pass)
        } else if n == 1 {
            Ok(Hand::Lone(cards[0]))
        } else if n == 2 {
            match Hand::try_pair(cards[0], cards[1]) {
                Ok(h) => Ok(h),
                Err(e) => Err(ParseHandError::InvalidHand(e)),
            }
        } else if n == 3 {
            match Hand::try_trips(cards[0], cards[1], cards[2]) {
                Ok(h) => Ok(h),
                Err(e) => Err(ParseHandError::InvalidHand(e)),
            }
        } else if n == 5 {
            match Hand::try_fiver(cards[0], cards[1], cards[2], cards[3], cards[4]) {
                Ok(h) => Ok(h),
                Err(e) => Err(ParseHandError::InvalidHand(e)),
            }
        } else {
            Err(ParseHandError::InvalidHand(InvalidHandError::WrongQuantity))
        }
    }

    /// Parses a hand from text: card tokens separated by single spaces,
    /// with surrounding whitespace ignored; empty text is a pass.
    pub fn parse(s: &str) -> (r: Result<Hand, ParseHandError>)
        ensures
            r == parse_hand_spec(s@),
    {
        let raw = chars_of(s);
        let t = trim_chars(&raw);
        if t.len() == 0 {
            return Ok(Hand::Pass);
        }
        let tokens = split_chars(&t);
        let ghost ts = split_sp(t@);
        let mut cards: Vec<Card> = Vec::new();
        let mut i: usize = 0;
        while i < tokens.len()
            invariant
                0 <= i <= tokens@.len(),
                tokens@.len() == ts.len(),
                forall|k: int| 0 <= k < tokens@.len() ==> (#[trigger] tokens@[k])@ == ts[k],
                cards@.len() == i,
                forall|k: int|
                    0 <= k < i ==> parse_card_spec(ts[k]) == Ok::<Card, ParseCardError>(
                        #[trigger] cards@[k],
                    ),
                ts == split_sp(trim_sp(s@)),
                trim_sp(s@).len() > 0,
            decreases tokens@.len() - i,
        {
            match Card::parse_chars(&tokens[i]) {
                Err(e) => {
                    proof {
                        assert forall|k: int| 0 <= k < i implies parse_card_spec(
                            #[trigger] ts[k],
                        ) is Ok by {
                            assert(parse_card_spec(ts[k]) == Ok::<Card, ParseCardError>(
                                cards@[k],
                            ));
                        }
                        lemma_parse_cards_err(ts, i as int, e);
                    }
                    return Err(ParseHandError::BadCard(e));
                },
                Ok(c) => {
                    cards.push(c);
                },
            }
            i = i + 1;
        }
        proof {
            lemma_parse_cards_ok(ts, cards@);
        }
        match Hand::sanitize_cards(cards.as_slice()) {
            Err(e) => Err(e),
            Ok(_) => {
                proof {
                    lemma_sanitize_desc(cards@);
                }
                Hand::try_from_cards(cards.as_slice())
            },
        }
    }
}

/// When every token parses to a card, the cards' encoding is the
/// tokens joined with single spaces.
proof fn lemma_cards_text_of_tokens(ts: Seq<Seq<char>>, cs: Seq<Card>)
    requires
        parse_cards_spec(ts) == Ok::<Seq<Card>, ParseCardError>(cs),
        ts.len() >= 1,
    ensures
        cards_text(cs) == join_sp(ts),
    decreases ts.len(),
{
    let c0 = parse_card_spec(ts[0])->Ok_0;
    crate::card::lemma_card_round_trip(ts[0], c0);
    let rest = parse_cards_spec(ts.drop_first())->Ok_0;
    assert(cs == seq![c0] + rest);
    assert(cs[0] == c0);
    assert(cs.drop_first() =~= rest);
    if ts.len() == 1 {
        assert(rest.len() == 0);
        assert(cs =~= seq![c0]);
        assert(cards_text(cs) == card_text(c0));
    } else {
        lemma_cards_text_of_tokens(ts.drop_first(), rest);
        assert(cs.len() >= 2);
        assert(cards_text(cs) == card_text(cs[0]) + seq![' '] + cards_text(cs.drop_first()));
        assert(cards_text(cs) =~= join_sp(ts));
    }
}

/// Any text that parses to a hand serializes back to that text with
/// its surrounding whitespace removed: parsing and then serializing
/// returns the token sequence that was parsed.
pub proof fn lemma_hand_round_trip(s: Seq<char>, h: Hand)
    requires
        parse_hand_spec(s) == Ok::<Hand, ParseHandError>(h),
    ensures
        hand_text(h) == trim_sp(s),
{
    let t = trim_sp(s);
    if t.len() == 0 {
        assert(h == Hand::Pass);
        assert(hand_text(h) =~= t);
    } else {
        let ts = split_sp(t);
        let cs = parse_cards_spec(ts)->Ok_0;
        assert(parse_cards_spec(ts) is Ok);
        assert(sanitize_spec(cs) is Ok);
        assert(try_from_cards_spec(cs) == Ok::<Hand, ParseHandError>(h));
        lemma_sanitize_desc(cs);
        lemma_try_from_cards_ok(cs, h);
        crate::text::lemma_split_len(t);
        lemma_cards_text_of_tokens(ts, cs);
        lemma_join_split(t);
    }
}

/// The encodings of the cards, one token each.
spec fn card_tokens(cs: Seq<Card>) -> Seq<Seq<char>> {
    cs.map_values(|c: Card| card_text(c))
}

/// Joining the cards' tokens with spaces is the cards' encoding.
proof fn lemma_cards_text_is_join(cs: Seq<Card>)
    ensures
        join_sp(card_tokens(cs)) == cards_text(cs),
    decreases cs.len(),
{
    let ts = card_tokens(cs);
    if cs.len() == 0 {
        assert(ts.len() == 0);
    } else if cs.len() == 1 {
        assert(ts[0] == card_text(cs[0]));
    } else {
        lemma_cards_text_is_join(cs.drop_first());
        assert(ts.drop_first() =~~= card_tokens(cs.drop_first()));
        assert(join_sp(ts) == ts[0] + seq![' '] + join_sp(ts.drop_first()));
        assert(join_sp(ts) =~= cards_text(cs));
    }
}

/// The cards' tokens parse back to the cards.
proof fn lemma_parse_card_tokens(cs: Seq<Card>)
    ensures
        parse_cards_spec(card_tokens(cs)) == Ok::<Seq<Card>, ParseCardError>(cs),
    decreases cs.len(),
{
    let ts = card_tokens(cs);
    if cs.len() == 0 {
        assert(cs =~= Seq::<Card>::empty());
    } else {
        crate::card::lemma_card_text_parses(cs[0]);
        assert(ts[0] == card_text(cs[0]));
        lemma_parse_card_tokens(cs.drop_first());
        assert(ts.drop_first() =~~= card_tokens(cs.drop_first()));
        assert(seq![cs[0]] + cs.drop_first() =~= cs);
    }
}

/// A valid hand's cards pass the coherence check.
proof fn lemma_wf_sanitize(h: Hand)
    requires
        h.wf(),
    ensures
        sanitize_spec(h.spec_cards()) is Ok,
{
    let cs = h.spec_cards();
    crate::player::lemma_wf_hand_distinct(h);
    assert(!has_dup(cs)) by {
        if has_dup(cs) {
            let (i, j) = choose|i: int, j: int| 0 <= i < j < cs.len() && cs[i] == cs[j];
            assert(cs[i] != cs[j]);
        }
    }
    assert(non_increasing(cs)) by {
        match h {
            Hand::Pair(a, b) => {
                assert(cs =~= seq![a, b]);
            },
            Hand::Trips(a, b, c) => {
                assert(cs =~= seq![a, b, c]);
            },
            Hand::Straight(a, b, c, d, e) => {
                assert(cs =~= seq![a, b, c, d, e]);
            },
            Hand::Flush(a, b, c, d, e) => {
                assert(cs =~= seq![a, b, c, d, e]);
            },
            Hand::FullHouse(a, b, c, d, e) => {
                assert(cs =~= seq![a, b, c, d, e]);
            },
            Hand::FourPlusKick(a, b, c, d, e) => {
                assert(cs =~= seq![a, b, c, d, e]);
            },
            Hand::StraightFlush(a, b, c, d, e) => {
                assert(cs =~= seq![a, b, c, d, e]);
            },
            _ => {},
        }
    }
}

/// A valid hand's cards classify back to the hand itself.
proof fn lemma_classify_back(h: Hand)
    requires
        h.wf(),
    ensures
        try_from_cards_spec(h.spec_cards()) == Ok::<Hand, ParseHandError>(h),
{
    let cs = h.spec_cards();
    match h {
        Hand::Pass => {},
        Hand::Lone(a) => {
            assert(cs =~= seq![a]);
        },
        Hand::Pair(a, b) => {
            assert(cs =~= seq![a, b]);
        },
        Hand::Trips(a, b, c) => {
            assert(cs =~= seq![a, b, c]);
        },
        Hand::Straight(a, b, c, d, e) => {
            assert(cs =~= seq![a, b, c, d, e]);
            assert(!full_house5(a, b, c, d, e));
            assert(!four_kick5(a, b, c, d, e));
        },
        Hand::Flush(a, b, c, d, e) => {
            assert(cs =~= seq![a, b, c, d, e]);
            assert(!full_house5(a, b, c, d, e));
            assert(!four_kick5(a, b, c, d, e));
        },
        Hand::FullHouse(a, b, c, d, e) => {
            assert(cs =~= seq![a, b, c, d, e]);
            assert(!consecutive5(a, b, c, d, e));
        },
        Hand::FourPlusKick(a, b, c, d, e) => {
            assert(cs =~= seq![a, b, c, d, e]);
            assert(!consecutive5(a, b, c, d, e));
            assert(!full_house5(a, b, c, d, e));
        },
        Hand::StraightFlush(a, b, c, d, e) => {
            assert(cs =~= seq![a, b, c, d, e]);
        },
    }
}

/// A nonempty card sequence's encoding starts with the first card's
/// rank character and ends with the last card's suit character.
proof fn lemma_cards_text_ends(cs: Seq<Card>)
    requires
        cs.len() >= 1,
    ensures
        cards_text(cs).len() >= 2,
        cards_text(cs)[0] == card_text(cs[0])[0],
        cards_text(cs).last() == card_text(cs.last())[1],
    decreases cs.len(),
{
    crate::card::lemma_card_text_shape(cs[0]);
    if cs.len() == 1 {
    } else {
        let rest = cs.drop_first();
        lemma_cards_text_ends(rest);
        assert(cards_text(cs) == card_text(cs[0]) + seq![' '] + cards_text(rest));
        assert(cards_text(cs).last() == cards_text(rest).last());
        assert(rest.last() == cs.last());
    }
}

/// A valid hand's encoding parses back to the hand itself: together
/// with `lemma_hand_round_trip`, parsing and serializing are inverse.
pub proof fn lemma_hand_text_parses(h: Hand)
    requires
        h.wf(),
    ensures
        parse_hand_spec(hand_text(h)) == Ok::<Hand, ParseHandError>(h),
{
    let s = hand_text(h);
    let cs = h.spec_cards();
    if cs.len() == 0 {
        assert(h == Hand::Pass);
        assert(s.len() == 0);
        lemma_trim_id(s);
    } else {
        lemma_cards_text_ends(cs);
        crate::card::lemma_card_text_shape(cs[0]);
        crate::card::lemma_card_text_shape(cs.last());
        lemma_trim_id(s);
        let ts = card_tokens(cs);
        assert(ts.len() == cs.len());
        assert forall|k: int, j: int|
            0 <= k < ts.len() && 0 <= j < ts[k].len() implies #[trigger] ts[k][j] != ' ' by {
            crate::card::lemma_card_text_shape(cs[k]);
            assert(ts[k] == card_text(cs[k]));
        }
        assert(forall|k: int| 0 <= k < ts.len() ==> (#[trigger] ts[k]).len() > 0) by {
            assert forall|k: int| 0 <= k < ts.len() implies (#[trigger] ts[k]).len() > 0 by {
                crate::card::lemma_card_text_shape(cs[k]);
                assert(ts[k] == card_text(cs[k]));
            }
        }
        lemma_cards_text_is_join(cs);
        crate::text::lemma_split_join(ts);
        lemma_parse_card_tokens(cs);
        lemma_wf_sanitize(h);
        lemma_classify_back(h);
    }
}

impl core::str::FromStr for Hand {
    type Err = ParseHandError;

    fn from_str(s: &str) -> Result<Hand, ParseHandError> {
        Hand::parse(s)
    }
}

} // verus!

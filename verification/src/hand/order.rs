//! Hand precedence: which hand may be played atop which other hand.
//!
//! Two hands of the same variant always compare. Across variants only
//! the five-card hands compare, by a fixed category precedence; a
//! lone, pair, trips or pass never compares with a different variant.
//! Two variants need component-wise tie-breaks instead of a plain
//! highest-card comparison: a full house compares by the rank of its
//! trip (its pair may outrank the trip card-wise), and a
//! four-plus-kicker by the rank of its quad.

use core::cmp::Ordering;

use vstd::prelude::*;

use crate::card::Card;
use crate::card::rank::Rank;
use crate::hand::Hand;

verus! {

/// Whether the two hands are the same variant.
pub open spec fn same_variant(a: Hand, b: Hand) -> bool {
    match (a, b) {
        (Hand::Pass, Hand::Pass) => true,
        (Hand::Lone(..), Hand::Lone(..)) => true,
        (Hand::Pair(..), Hand::Pair(..)) => true,
        (Hand::Trips(..), Hand::Trips(..)) => true,
        (Hand::Straight(..), Hand::Straight(..)) => true,
        (Hand::Flush(..), Hand::Flush(..)) => true,
        (Hand::FullHouse(..), Hand::FullHouse(..)) => true,
        (Hand::FourPlusKick(..), Hand::FourPlusKick(..)) => true,
        (Hand::StraightFlush(..), Hand::StraightFlush(..)) => true,
        _ => false,
    }
}

/// Whether the hand is one of the small variants that never compare
/// across variants.
pub open spec fn is_small(h: Hand) -> bool {
    h is Lone || h is Pair || h is Trips
}

/// Whether the hand is one of the five-card variants.
pub open spec fn is_five_card(h: Hand) -> bool {
    h is Straight || h is Flush || h is FullHouse || h is FourPlusKick || h is StraightFlush
}

/// The fixed precedence of the five-card categories: straight below
/// flush below full house below four-plus-kicker below straight flush.
pub open spec fn category_code(h: Hand) -> int {
    match h {
        Hand::Straight(..) => 0,
        Hand::Flush(..) => 1,
        Hand::FullHouse(..) => 2,
        Hand::FourPlusKick(..) => 3,
        Hand::StraightFlush(..) => 4,
        _ => -1,
    }
}

/// The order of two integers.
pub open spec fn cmp_int(x: int, y: int) -> Ordering {
    if x < y {
        Ordering::Less
    } else if x == y {
        Ordering::Equal
    } else {
        Ordering::Greater
    }
}

/// Lexicographic comparison of two card sequences, highest card first.
pub open spec fn cmp_cards_spec(x: Seq<Card>, y: Seq<Card>) -> Ordering
    decreases x.len(),
{
    if x.len() == 0 || y.len() == 0 {
        Ordering::Equal
    } else if x[0].lt_spec(y[0]) {
        Ordering::Less
    } else if y[0].lt_spec(x[0]) {
        Ordering::Greater
    } else {
        cmp_cards_spec(x.drop_first(), y.drop_first())
    }
}

/// The rank of the three-of-a-kind inside a full house's descending
/// cards: the first three cards when those share a rank, else the
/// last three.
pub open spec fn fh_trip_rank(cs: Seq<Card>) -> Rank {
    if cs[0].rank == cs[2].rank {
        cs[0].rank
    } else {
        cs[2].rank
    }
}

/// The rank of the pair inside a full house's descending cards: the
/// complement of the trip.
pub open spec fn fh_pair_rank(cs: Seq<Card>) -> Rank {
    if cs[0].rank == cs[2].rank {
        cs[3].rank
    } else {
        cs[0].rank
    }
}

/// The rank of the four-of-a-kind inside a four-plus-kicker's
/// descending cards: the first card's when the first two share a rank,
/// else the second card's.
pub open spec fn fk_quad_rank(cs: Seq<Card>) -> Rank {
    if cs[0].rank == cs[1].rank {
        cs[0].rank
    } else {
        cs[1].rank
    }
}

/// The kicker inside a four-plus-kicker's descending cards: the last
/// card when the quad comes first, else the first card.
pub open spec fn fk_kicker(cs: Seq<Card>) -> Card {
    if cs[0].rank == cs[1].rank {
        cs[4]
    } else {
        cs[0]
    }
}

/// The order of two full houses: by trip rank, then by pair rank.
pub open spec fn order_full_house_spec(current: Hand, attempt: Hand) -> Ordering {
    let x = current.spec_cards();
    let y = attempt.spec_cards();
    if fh_trip_rank(x) != fh_trip_rank(y) {
        cmp_int(fh_trip_rank(x).code(), fh_trip_rank(y).code())
    } else {
        cmp_int(fh_pair_rank(x).code(), fh_pair_rank(y).code())
    }
}

/// The order of two four-plus-kickers: by quad rank, then by kicker.
pub open spec fn order_four_plus_kick_spec(current: Hand, attempt: Hand) -> Ordering {
    let x = current.spec_cards();
    let y = attempt.spec_cards();
    if fk_quad_rank(x) != fk_quad_rank(y) {
        cmp_int(fk_quad_rank(x).code(), fk_quad_rank(y).code())
    } else {
        fk_kicker(x).cmp_spec(fk_kicker(y))
    }
}

/// The precedence relation over hands, a partial order: `Some` of how
/// `current` compares to `attempt` when they compare at all, `None`
/// when they are incomparable.
pub open spec fn order_spec(current: Hand, attempt: Hand) -> Option<Ordering> {
    if same_variant(current, attempt) {
        if current is FullHouse {
            Some(order_full_house_spec(current, attempt))
        } else if current is FourPlusKick {
            Some(order_four_plus_kick_spec(current, attempt))
        } else {
            Some(cmp_cards_spec(current.spec_cards(), attempt.spec_cards()))
        }
    } else if is_small(current) || is_small(attempt) || current is Pass || attempt is Pass {
        None
    } else {
        Some(cmp_int(category_code(current), category_code(attempt)))
    }
}

/// Decides whether the two hands are the same variant.
pub fn is_same_variant(a: &Hand, b: &Hand) -> (r: bool)
    ensures
        r == same_variant(*a, *b),
{
    match (a, b) {
        (Hand::Pass, Hand::Pass) => true,
        (Hand::Lone(..), Hand::Lone(..)) => true,
        (Hand::Pair(..), Hand::Pair(..)) => true,
        (Hand::Trips(..), Hand::Trips(..)) => true,
        (Hand::Straight(..), Hand::Straight(..)) => true,
        (Hand::Flush(..), Hand::Flush(..)) => true,
        (Hand::FullHouse(..), Hand::FullHouse(..)) => true,
        (Hand::FourPlusKick(..), Hand::FourPlusKick(..)) => true,
        (Hand::StraightFlush(..), Hand::StraightFlush(..)) => true,
        _ => false,
    }
}

/// Compares two equal-length card vectors lexicographically.
fn compare_cards(x: &Vec<Card>, y: &Vec<Card>) -> (o: Ordering)
    requires
        x@.len() == y@.len(),
    ensures
        o == cmp_cards_spec(x@, y@),
{
    let n = x.len();
    let mut i: usize = 0;
    proof {
        assert(x@.skip(0) =~= x@);
        assert(y@.skip(0) =~= y@);
    }
    while i < n
        invariant
            0 <= i <= n == x@.len() && n == y@.len(),
            cmp_cards_spec(x@, y@) == cmp_cards_spec(x@.skip(i as int), y@.skip(i as int)),
            forall|k: int| 0 <= k < i ==> x@[k] == y@[k],
        decreases n - i,
    {
        proof {
            assert(x@.skip(i as int)[0] == x@[i as int]);
            assert(y@.skip(i as int)[0] == y@[i as int]);
            assert(x@.skip(i as int).drop_first() =~= x@.skip(i + 1));
            assert(y@.skip(i as int).drop_first() =~= y@.skip(i + 1));
        }
        if x[i].lt(&y[i]) {
            return Ordering::Less;
        }
        if y[i].lt(&x[i]) {
            return Ordering::Greater;
        }
        proof {
            crate::card::lemma_card_order_total(x@[i as int], y@[i as int]);
        }
        i = i + 1;
    }
    proof {
        assert(x@.skip(n as int).len() == 0);
    }
    Ordering::Equal
}

/// The order of two full houses, by trip rank and then pair rank.
pub fn order_full_house(current: &Hand, attempt: &Hand) -> (o: Ordering)
    requires
        *current is FullHouse,
        *attempt is FullHouse,
    ensures
        o == order_full_house_spec(*current, *attempt),
{
    let a = get_full_house_trip_rank(current);
    let b = get_full_house_trip_rank(attempt);
    if a.value() != b.value() {
        if a.value() < b.value() {
            Ordering::Less
        } else {
            Ordering::Greater
        }
    } else {
        let a = get_full_house_pair_rank(current);
        let b = get_full_house_pair_rank(attempt);
        if a.value() < b.value() {
            Ordering::Less
        } else if a.value() == b.value() {
            Ordering::Equal
        } else {
            Ordering::Greater
        }
    }
}

/// The rank of the three-of-a-kind component of a full house.
pub fn get_full_house_trip_rank(full_house: &Hand) -> (r: Rank)
    requires
        *full_house is FullHouse,
    ensures
        r == fh_trip_rank(full_house.spec_cards()),
{
    match full_house {
        Hand::FullHouse(a, b, c, d, e) => {
            if a.rank == c.rank {
                a.rank
            } else {
                c.rank
            }
        },
        _ => Rank::Three,
    }
}

/// The rank of the pair component of a full house.
pub fn get_full_house_pair_rank(full_house: &Hand) -> (r: Rank)
    requires
        *full_house is FullHouse,
    ensures
        r == fh_pair_rank(full_house.spec_cards()),
{
    match full_house {
        Hand::FullHouse(a, b, c, d, e) => {
            if a.rank == c.rank {
                d.rank
            } else {
                a.rank
            }
        },
        _ => Rank::Three,
    }
}

/// The order of two four-plus-kickers, by quad rank and then kicker.
pub fn order_four_plus_kick(current: &Hand, attempt: &Hand) -> (o: Ordering)
    requires
        *current is FourPlusKick,
        *attempt is FourPlusKick,
    ensures
        o == order_four_plus_kick_spec(*current, *attempt),
{
    let a = get_fours_major(current);
    let b = get_fours_major(attempt);
    if a.rank.value() != b.rank.value() {
        if a.rank.value() < b.rank.value() {
            Ordering::Less
        } else {
            Ordering::Greater
        }
    } else {
        let a = get_fours_minor(current);
        let b = get_fours_minor(attempt);
        a.compare(&b)
    }
}

/// The highest card of the four-of-a-kind component of a
/// four-plus-kicker.
pub fn get_fours_major(four_plus_kick: &Hand) -> (r: Card)
    requires
        *four_plus_kick is FourPlusKick,
    ensures
        r.rank == fk_quad_rank(four_plus_kick.spec_cards()),
{
    match four_plus_kick {
        Hand::FourPlusKick(a, b, c, d, e) => {
            if a.rank == b.rank {
                *a
            } else {
                *b
            }
        },
        _ => crate::card::three_of_clubs(),
    }
}

/// The kicker component of a four-plus-kicker.
pub fn get_fours_minor(four_plus_kick: &Hand) -> (r: Card)
    requires
        *four_plus_kick is FourPlusKick,
    ensures
        r == fk_kicker(four_plus_kick.spec_cards()),
{
    match four_plus_kick {
        Hand::FourPlusKick(a, b, c, d, e) => {
            if a.rank == b.rank {
                *e
            } else {
                *a
            }
        },
        _ => crate::card::three_of_clubs(),
    }
}

/// The precedence relation over hands. `Some` says how `current`
/// compares to `attempt`; `None` says the hands are incomparable.
pub fn order(current: &Hand, attempt: &Hand) -> (r: Option<Ordering>)
    ensures
        r == order_spec(*current, *attempt),
{
    if is_same_variant(current, attempt) {
        if matches!(current, Hand::FullHouse(..)) {
            Some(order_full_house(current, attempt))
        } else if matches!(current, Hand::FourPlusKick(..)) {
            Some(order_four_plus_kick(current, attempt))
        } else {
            let x = current.cards();
            let y = attempt.cards();
            Some(compare_cards(&x, &y))
        }
    } else if matches!(current, Hand::Lone(..) | Hand::Pair(..) | Hand::Trips(..) | Hand::Pass)
        || matches!(attempt, Hand::Lone(..) | Hand::Pair(..) | Hand::Trips(..) | Hand::Pass) {
        None
    } else {
        let a = category_value(current);
        let b = category_value(attempt);
        if a < b {
            Some(Ordering::Less)
        } else if a == b {
            Some(Ordering::Equal)
        } else {
            Some(Ordering::Greater)
        }
    }
}

/// Runtime counterpart of `category_code` for the five-card hands.
fn category_value(h: &Hand) -> (v: u8)
    requires
        is_five_card(*h),
    ensures
        v as int == category_code(*h),
{
    match h {
        Hand::Straight(..) => 0,
        Hand::Flush(..) => 1,
        Hand::FullHouse(..) => 2,
        Hand::FourPlusKick(..) => 3,
        _ => 4,
    }
}

/// Two hands of the same variant always compare: the precedence
/// relation is total within a variant.
pub proof fn lemma_order_total_same_variant(a: Hand, b: Hand)
    requires
        same_variant(a, b),
    ensures
        order_spec(a, b) is Some,
{
}

/// A lone, pair, trips or pass never compares with a hand of a
/// different variant.
pub proof fn lemma_order_cross_variant_none(a: Hand, b: Hand)
    requires
        !same_variant(a, b),
        is_small(a) || is_small(b) || a is Pass || b is Pass,
    ensures
        order_spec(a, b) == None::<Ordering>,
{
}

/// Category precedence across the five-card variants: any hand of a
/// lower category compares below any hand of a higher one, whatever
/// the ranks involved.
pub proof fn lemma_order_category_precedence(a: Hand, b: Hand)
    requires
        is_five_card(a),
        is_five_card(b),
        category_code(a) < category_code(b),
    ensures
        order_spec(a, b) == Some(Ordering::Less),
        order_spec(b, a) == Some(Ordering::Greater),
{
}

} // verus!

//! A player's card inventory, and the interface through which the
//! trick asks a player for a hand.

pub mod ai;

use core::cmp::Ordering;

use vstd::prelude::*;
use vstd::string::StringExecFns;

use crate::card::{card_text, spec_three_of_clubs, Card};
use crate::hand::order::order_spec;
use crate::hand::Hand;

verus! {

/// A player: the cards they still hold. How the player decides what
/// to play lives behind `TurnResponder`.
pub struct Player {
    pub cards: Vec<Card>,
}

/// Every card of the hand occurs among the given cards.
pub open spec fn hand_in_cards_spec(h: Hand, cards: Seq<Card>) -> bool {
    forall|k: int| 0 <= k < h.spec_cards().len() ==> cards.contains(#[trigger] h.spec_cards()[k])
}

/// No card occurs twice.
pub open spec fn distinct_cards(cs: Seq<Card>) -> bool {
    forall|i: int, j: int| 0 <= i < j < cs.len() ==> cs[i] != cs[j]
}

/// Strictly ascending card order, the convention for inventories.
pub open spec fn ascending_cards(cs: Seq<Card>) -> bool {
    forall|i: int| 0 <= i < cs.len() - 1 ==> (#[trigger] cs[i]).lt_spec(cs[i + 1])
}

/// The sequence with its first occurrence of `c` removed.
pub open spec fn remove_first(s: Seq<Card>, c: Card) -> Seq<Card>
    decreases s.len(),
{
    if s.len() == 0 {
        s
    } else if s[0] == c {
        s.drop_first()
    } else {
        seq![s[0]] + remove_first(s.drop_first(), c)
    }
}

/// The sequence with one occurrence of each of `cs` removed, in order.
pub open spec fn remove_all(s: Seq<Card>, cs: Seq<Card>) -> Seq<Card>
    decreases cs.len(),
{
    if cs.len() == 0 {
        s
    } else {
        remove_all(remove_first(s, cs[0]), cs.drop_first())
    }
}

/// Each card of `cs` can be removed from `s` in turn: every card is
/// still present when its removal comes.
pub open spec fn removable(s: Seq<Card>, cs: Seq<Card>) -> bool
    decreases cs.len(),
{
    if cs.len() == 0 {
        true
    } else {
        s.contains(cs[0]) && removable(remove_first(s, cs[0]), cs.drop_first())
    }
}

/// Removing one card shortens the sequence by one.
pub proof fn lemma_remove_first_len(s: Seq<Card>, c: Card)
    requires
        s.contains(c),
    ensures
        remove_first(s, c).len() == s.len() - 1,
    decreases s.len(),
{
    if s[0] == c {
    } else {
        assert(s.drop_first().contains(c)) by {
            let i = choose|i: int| 0 <= i < s.len() && s[i] == c;
            assert(s.drop_first()[i - 1] == c);
        }
        lemma_remove_first_len(s.drop_first(), c);
    }
}

/// Removing one card leaves any other card's presence unchanged.
pub proof fn lemma_remove_first_other(s: Seq<Card>, c: Card, d: Card)
    requires
        d != c,
        s.contains(d),
    ensures
        remove_first(s, c).contains(d),
    decreases s.len(),
{
    if s.len() == 0 {
    } else if s[0] == c {
        let i = choose|i: int| 0 <= i < s.len() && s[i] == d;
        assert(i != 0);
        assert(s.drop_first()[i - 1] == d);
    } else {
        if s[0] == d {
            assert((seq![s[0]] + remove_first(s.drop_first(), c))[0] == d);
        } else {
            let i = choose|i: int| 0 <= i < s.len() && s[i] == d;
            assert(i != 0);
            assert(s.drop_first()[i - 1] == d);
            lemma_remove_first_other(s.drop_first(), c, d);
            let r = remove_first(s.drop_first(), c);
            let j = choose|j: int| 0 <= j < r.len() && r[j] == d;
            assert((seq![s[0]] + r)[j + 1] == d);
        }
    }
}

/// Distinct cards that are all present can be removed in turn.
pub proof fn lemma_removable_of_distinct(s: Seq<Card>, cs: Seq<Card>)
    requires
        distinct_cards(cs),
        forall|k: int| 0 <= k < cs.len() ==> s.contains(#[trigger] cs[k]),
    ensures
        removable(s, cs),
    decreases cs.len(),
{
    if cs.len() > 0 {
        let s1 = remove_first(s, cs[0]);
        assert forall|k: int| 0 <= k < cs.drop_first().len() implies s1.contains(
            #[trigger] cs.drop_first()[k],
        ) by {
            assert(cs.drop_first()[k] == cs[k + 1]);
            assert(cs[k + 1] != cs[0]);
            lemma_remove_first_other(s, cs[0], cs[k + 1]);
        }
        assert(distinct_cards(cs.drop_first())) by {
            assert(forall|i: int, j: int|
                0 <= i < j < cs.drop_first().len() ==> cs.drop_first()[i] == cs[i + 1]
                    && cs.drop_first()[j] == cs[j + 1]);
        }
        lemma_removable_of_distinct(s1, cs.drop_first());
    }
}

/// Removing removable cards shortens the sequence by their number.
pub proof fn lemma_remove_all_len(s: Seq<Card>, cs: Seq<Card>)
    requires
        removable(s, cs),
    ensures
        remove_all(s, cs).len() == s.len() - cs.len(),
    decreases cs.len(),
{
    if cs.len() > 0 {
        lemma_remove_first_len(s, cs[0]);
        lemma_remove_all_len(remove_first(s, cs[0]), cs.drop_first());
    }
}

/// A valid hand never holds the same card twice.
pub proof fn lemma_wf_hand_distinct(h: Hand)
    requires
        h.wf(),
    ensures
        distinct_cards(h.spec_cards()),
{
}

/// `remove_first` is the removal of the first matching position.
proof fn lemma_remove_first_at(s: Seq<Card>, c: Card, i: int)
    requires
        0 <= i < s.len(),
        s[i] == c,
        forall|k: int| 0 <= k < i ==> s[k] != c,
    ensures
        remove_first(s, c) == s.subrange(0, i) + s.subrange(i + 1, s.len() as int),
    decreases i,
{
    if i == 0 {
        assert(remove_first(s, c) =~= s.subrange(0, 0) + s.subrange(1, s.len() as int));
    } else {
        assert(s[0] != c);
        let t = s.drop_first();
        assert(forall|k: int| 0 <= k < i - 1 ==> t[k] == s[k + 1]);
        lemma_remove_first_at(t, c, i - 1);
        assert(seq![s[0]] + (t.subrange(0, i - 1) + t.subrange(i, t.len() as int)) =~= s.subrange(
            0,
            i,
        ) + s.subrange(i + 1, s.len() as int));
    }
}

/// Whether `c` occurs among the cards.
pub fn cards_contain(cards: &[Card], c: Card) -> (b: bool)
    ensures
        b == cards@.contains(c),
{
    let n = cards.len();
    let mut i: usize = 0;
    while i < n
        invariant
            0 <= i <= n == cards@.len(),
            forall|k: int| 0 <= k < i ==> cards@[k] != c,
        decreases n - i,
    {
        if cards[i] == c {
            assert(cards@[i as int] == c);
            return true;
        }
        i = i + 1;
    }
    assert(!cards@.contains(c));
    false
}

impl Player {
    /// Whether this player actually holds every card of the hand.
    pub fn has_cards(&self, hand: &Hand) -> (b: bool)
        ensures
            b == hand_in_cards_spec(*hand, self.cards@),
    {
        Player::hand_in_cards(hand, self.cards.as_slice())
    }

    /// Whether every card of the hand occurs among the given cards.
    pub fn hand_in_cards(hand: &Hand, cards: &[Card]) -> (b: bool)
        ensures
            b == hand_in_cards_spec(*hand, cards@),
    {
        let hc = hand.cards();
        let n = hc.len();
        let mut i: usize = 0;
        while i < n
            invariant
                0 <= i <= n == hc@.len(),
                hc@ == hand.spec_cards(),
                forall|k: int| 0 <= k < i ==> cards@.contains(#[trigger] hc@[k]),
            decreases n - i,
        {
            if !cards_contain(cards, hc[i]) {
                return false;
            }
            i = i + 1;
        }
        true
    }

    /// Takes the cards of an accepted hand out of this player's
    /// inventory, each card once, keeping the rest in order.
    pub fn remove_hand_from_cards(&mut self, hand: &Hand)
        requires
            hand.wf(),
            hand_in_cards_spec(*hand, old(self).cards@),
        ensures
            final(self).cards@ == remove_all(old(self).cards@, hand.spec_cards()),
    {
        proof {
            lemma_wf_hand_distinct(*hand);
            lemma_removable_of_distinct(self.cards@, hand.spec_cards());
        }
        let hc = hand.cards();
        self.remove_cards_from_cards(hc.as_slice());
    }

    /// Removes the first occurrence of each given card in turn.
    fn remove_cards_from_cards(&mut self, cards_to_remove: &[Card])
        requires
            removable(old(self).cards@, cards_to_remove@),
        ensures
            final(self).cards@ == remove_all(old(self).cards@, cards_to_remove@),
    {
        let ghost s0 = self.cards@;
        let ghost cs = cards_to_remove@;
        let n = cards_to_remove.len();
        let mut t: usize = 0;
        proof {
            assert(cs.skip(0) =~= cs);
        }
        while t < n
            invariant
                0 <= t <= n == cs.len(),
                cards_to_remove@ == cs,
                removable(self.cards@, cs.skip(t as int)),
                remove_all(s0, cs) == remove_all(self.cards@, cs.skip(t as int)),
            decreases n - t,
        {
            let c = cards_to_remove[t];
            proof {
                assert(cs.skip(t as int)[0] == cs[t as int]);
                assert(cs.skip(t as int).drop_first() =~= cs.skip(t + 1));
            }
            let mut index: usize = 0;
            while index < self.cards.len() && self.cards[index] != c
                invariant
                    0 <= index <= self.cards@.len(),
                    self.cards@.contains(c),
                    forall|k: int| 0 <= k < index ==> self.cards@[k] != c,
                decreases self.cards@.len() - index,
            {
                index = index + 1;
            }
            proof {
                if index == self.cards@.len() {
                    assert(!self.cards@.contains(c));
                }
            }
            let ghost before = self.cards@;
            proof {
                lemma_remove_first_at(before, c, index as int);
            }
            self.cards.remove(index);
            proof {
                assert(self.cards@ =~= remove_first(before, c));
            }
            t = t + 1;
        }
        proof {
            assert(cs.skip(n as int) =~= Seq::<Card>::empty());
        }
    }
}

impl Default for Player {
    /// A player holding no cards yet.
    fn default() -> (p: Player)
        ensures
            p.cards@.len() == 0,
    {
        Player { cards: Vec::new() }
    }
}

/// The text form of a card list used for prompts: each card's token
/// between vertical bars.
pub open spec fn decorated_cards_text(cards: Seq<Card>) -> Seq<char>
    decreases cards.len(),
{
    if cards.len() == 0 {
        Seq::<char>::empty()
    } else {
        seq!['|'] + card_text(cards[0]) + seq!['|'] + decorated_cards_text(cards.drop_first())
    }
}

/// One more decorated token lands at the end of the text.
proof fn lemma_decorated_snoc(cards: Seq<Card>, c: Card)
    ensures
        decorated_cards_text(cards.push(c)) == decorated_cards_text(cards) + seq!['|']
            + card_text(c) + seq!['|'],
    decreases cards.len(),
{
    let p = cards.push(c);
    if cards.len() == 0 {
        assert(cards =~= Seq::<Card>::empty());
        assert(p.drop_first() =~= Seq::<Card>::empty());
        assert(decorated_cards_text(Seq::<Card>::empty()) == Seq::<char>::empty());
        assert(decorated_cards_text(p) =~= decorated_cards_text(cards) + seq!['|'] + card_text(c)
            + seq!['|']);
    } else {
        lemma_decorated_snoc(cards.drop_first(), c);
        assert(p.drop_first() =~= cards.drop_first().push(c));
        assert(decorated_cards_text(p) =~= decorated_cards_text(cards) + seq!['|'] + card_text(c)
            + seq!['|']);
    }
}

/// Serializes a card list for a prompt: each card's token between
/// vertical bars.
pub fn cards_to_string(cards: &[Card]) -> (out: String)
    ensures
        out@ == decorated_cards_text(cards@),
{
    let mut out = String::new();
    let mut i: usize = 0;
    proof {
        assert(cards@.take(0) =~= Seq::<Card>::empty());
    }
    while i < cards.len()
        invariant
            0 <= i <= cards@.len(),
            out@ == decorated_cards_text(cards@.take(i as int)),
        decreases cards@.len() - i,
    {
        proof {
            lemma_decorated_snoc(cards@.take(i as int), cards@[i as int]);
            assert(cards@.take(i + 1) =~= cards@.take(i as int).push(cards@[i as int]));
            reveal_strlit("|");
        }
        out.append("|");
        let token = cards[i].to_text();
        out.append(token.as_str());
        out.append("|");
        i = i + 1;
    }
    proof {
        assert(cards@.take(cards@.len() as int) =~= cards@);
    }
    out
}

/// How a player is asked for a hand. The trick solicits through this
/// interface and validates every answer itself; an implementation that
/// keeps these contracts is accepted on the first answer.
pub trait TurnResponder {
    /// The hand that opens the first trick of the game. The inventory
    /// is ascending and its first card is the Three of Clubs, which
    /// the answer must include.
    fn offer_game_opener(&mut self, player_id: usize, cards: &Vec<Card>) -> (h: Hand)
        requires
            cards@.len() >= 1,
            ascending_cards(cards@),
            cards@[0] == spec_three_of_clubs(),
        ensures
            h.wf(),
            !(h is Pass),
            hand_in_cards_spec(h, cards@),
            h.spec_cards().contains(spec_three_of_clubs()),
    ;

    /// The hand that opens a later trick: any valid non-pass hand the
    /// player holds.
    fn offer_trick_opener(&mut self, player_id: usize, cards: &Vec<Card>) -> (h: Hand)
        requires
            cards@.len() >= 1,
        ensures
            h.wf(),
            !(h is Pass),
            hand_in_cards_spec(h, cards@),
    ;

    /// The hand offered against the hand to beat: a pass, or a valid
    /// owned hand that compares strictly above the hand to beat.
    fn offer_play(&mut self, player_id: usize, hand_to_beat: &Hand, cards: &Vec<Card>) -> (h:
        Hand)
        requires
            hand_to_beat.wf(),
            !(*hand_to_beat is Pass),
        ensures
            h is Pass || (h.wf() && hand_in_cards_spec(h, cards@) && order_spec(*hand_to_beat, h)
                == Some(Ordering::Less)),
    ;
}

} // verus!

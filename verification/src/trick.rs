//! The trick state machine: one round of play beginning with an
//! opening hand and continuing until all but one player has passed.
//!
//! The caller keeps the players and decides who begins. A trick
//! solicits each hand through a `TurnResponder`; the responder's
//! contract carries the legality of every accepted offer, so a
//! responder that loops until its player types a legal hand does that
//! re-solicitation on its own side of the interface.

pub mod check_player_can_play_hand;
pub mod next_player_id;
pub mod passed_players;

use core::cmp::Ordering;

use vstd::prelude::*;

use crate::card::spec_three_of_clubs;
use crate::hand::order::order_spec;
use crate::hand::Hand;
use crate::player::{
    ascending_cards, hand_in_cards_spec, remove_all, Player, TurnResponder,
    lemma_removable_of_distinct, lemma_remove_all_len, lemma_wf_hand_distinct,
};
use crate::trick::next_player_id::{next_player_id, scan_offset, wrap};
use crate::trick::passed_players::PassedPlayers;

verus! {

/// The game is played by exactly four players.
pub const NUM_PLAYERS: usize = 4;

/// How a finished trick came to its end.
#[derive(Debug)]
pub enum TrickResult {
    /// The trick ended with everyone else passing: this player starts
    /// the next trick.
    NewTrick(usize),
    /// The trick ended with this player out of cards: the game is over.
    GameOver(usize),
}

/// Where a trick stands after a turn.
#[derive(Debug)]
pub enum StepStatus {
    /// The trick is not over; keep playing.
    Continue,
    /// Everyone else passed: this player won the trick.
    TrickOver(usize),
    /// This player is out of cards: the game is over.
    GameOver(usize),
}

/// The state of one trick: the hands played so far, whose turn it is,
/// and who has passed.
#[derive(Debug)]
pub struct Trick {
    /// The hand that began the trick, and every later accepted hand.
    pub played_hands: Vec<Hand>,
    /// The player whose turn it is, an index into the players.
    pub current_player_id: usize,
    /// The players who have passed so far this trick.
    pub passed_player_ids: PassedPlayers,
}

/// The cards still held by all players together.
pub open spec fn total_cards(players: Seq<Player>) -> nat
    decreases players.len(),
{
    if players.len() == 0 {
        0
    } else {
        players[0].cards@.len() + total_cards(players.drop_first())
    }
}

/// Shrinking one player's inventory shrinks the total.
proof fn lemma_total_cards_shrink(pre: Seq<Player>, post: Seq<Player>, at: int)
    requires
        pre.len() == post.len(),
        0 <= at < pre.len(),
        forall|j: int| 0 <= j < pre.len() && j != at ==> post[j] == pre[j],
        post[at].cards@.len() < pre[at].cards@.len(),
    ensures
        total_cards(post) < total_cards(pre),
    decreases pre.len(),
{
    if at == 0 {
        assert(post.drop_first() =~= pre.drop_first()) by {
            assert(forall|j: int|
                0 <= j < pre.drop_first().len() ==> post.drop_first()[j] == pre.drop_first()[j]);
        }
    } else {
        assert(forall|j: int|
            0 <= j < pre.drop_first().len() && j != at - 1 ==> pre.drop_first()[j]
                == post.drop_first()[j]);
        lemma_total_cards_shrink(pre.drop_first(), post.drop_first(), at - 1);
        assert(post[0] == pre[0]);
    }
}

/// An unchanged table keeps its total.
proof fn lemma_total_cards_congruence(pre: Seq<Player>, post: Seq<Player>)
    requires
        pre.len() == post.len(),
        forall|j: int| 0 <= j < pre.len() ==> post[j] == pre[j],
    ensures
        total_cards(post) == total_cards(pre),
{
    assert(post =~= pre);
}

impl Trick {
    /// The standing invariant of a trick: at least the opening hand
    /// has been played, every played hand is a valid non-pass hand,
    /// the turn points at a live table seat, and the player whose
    /// turn it is has not passed.
    pub open spec fn wf(self) -> bool {
        &&& self.played_hands@.len() >= 1
        &&& (forall|k: int|
            0 <= k < self.played_hands@.len() ==> (#[trigger] self.played_hands@[k]).wf() && !(
            self.played_hands@[k] is Pass))
        &&& (self.current_player_id as int) < NUM_PLAYERS as int
        &&& self.passed_player_ids.spec_len() == NUM_PLAYERS as int
        &&& !self.passed_player_ids.spec_contains(self.current_player_id as int)
    }

    /// Starts a trick: solicits the opening hand from the starting
    /// player, removes its cards from their inventory, and passes the
    /// turn to the next player. On the first trick of the game the
    /// opening hand includes the Three of Clubs, which the starting
    /// player is guaranteed by the surrounding game to hold first.
    pub fn start<R: TurnResponder>(
        starting_player_id: usize,
        players: &mut Vec<Player>,
        responder: &mut R,
        is_first: bool,
    ) -> (trick: Trick)
        requires
            old(players)@.len() == NUM_PLAYERS as int,
            starting_player_id < NUM_PLAYERS,
            old(players)@[starting_player_id as int].cards@.len() >= 1,
            is_first ==> ascending_cards(old(players)@[starting_player_id as int].cards@)
                && old(players)@[starting_player_id as int].cards@[0] == spec_three_of_clubs(),
        ensures
            trick.wf(),
            trick.played_hands@.len() == 1,
            trick.played_hands@[0].wf(),
            !(trick.played_hands@[0] is Pass),
            hand_in_cards_spec(
                trick.played_hands@[0],
                old(players)@[starting_player_id as int].cards@,
            ),
            is_first ==> trick.played_hands@[0].spec_cards().contains(spec_three_of_clubs()),
            final(players)@.len() == NUM_PLAYERS as int,
            forall|j: int|
                0 <= j < NUM_PLAYERS as int && j != starting_player_id as int ==> final(
                    players
                )@[j] == old(players)@[j],
            final(players)@[starting_player_id as int].cards@ == remove_all(
                old(players)@[starting_player_id as int].cards@,
                trick.played_hands@[0].spec_cards(),
            ),
            forall|j: int| !trick.passed_player_ids.spec_contains(j),
            trick.passed_player_ids.spec_count() == 0,
            trick.current_player_id as int == wrap(
                starting_player_id as int + 1,
                NUM_PLAYERS as int,
            ),
    {
        let starting_hand = if is_first {
            responder.offer_game_opener(starting_player_id, &players[starting_player_id].cards)
        } else {
            responder.offer_trick_opener(starting_player_id, &players[starting_player_id].cards)
        };

        let mut player = players.remove(starting_player_id);
        player.remove_hand_from_cards(&starting_hand);
        players.insert(starting_player_id, player);
        proof {
            assert(players@ =~= old(players)@.update(starting_player_id as int, players@[
                starting_player_id as int]));
        }

        let passed = PassedPlayers::new(NUM_PLAYERS);
        proof {
            let n = NUM_PLAYERS as int;
            let q = wrap(starting_player_id as int + 1, n);
            assert(0 <= q < n && q != starting_player_id as int && !passed.spec_contains(q));
        }
        let next = next_player_id(starting_player_id, &passed, NUM_PLAYERS);
        proof {
            let n = NUM_PLAYERS as int;
            let q = wrap(starting_player_id as int + 1, n);
            if next as int != q {
                assert(crate::trick::next_player_id::scan_offset(
                    starting_player_id as int,
                    q,
                    n,
                ) == 1);
                assert(crate::trick::next_player_id::scan_offset(
                    starting_player_id as int,
                    next as int,
                    n,
                ) > 1);
                assert(passed.spec_contains(q));
                assert(false);
            }
        }

        let mut played_hands: Vec<Hand> = Vec::new();
        played_hands.push(starting_hand);

        Trick { played_hands, current_player_id: next, passed_player_ids: passed }
    }

    /// Plays one turn: solicits the current player's offer. A pass is
    /// recorded in the passed set; an accepted hand replaces the hand
    /// to beat and its cards leave the player's inventory. Either way
    /// the turn advances to the next player who has not passed.
    pub fn do_player_turn<R: TurnResponder>(&mut self, players: &mut Vec<Player>,
        responder: &mut R)
        requires
            old(self).wf(),
            old(players)@.len() == NUM_PLAYERS as int,
            old(self).passed_player_ids.spec_count() < NUM_PLAYERS as int - 1,
            forall|i: int|
                0 <= i < NUM_PLAYERS as int ==> (#[trigger] old(players)@[i]).cards@.len() >= 1,
        ensures
            final(self).wf(),
            final(players)@.len() == NUM_PLAYERS as int,
            final(self).passed_player_ids.spec_len() == NUM_PLAYERS as int,
            final(self).current_player_id != old(self).current_player_id,
            forall|p: int|
                0 <= p < NUM_PLAYERS as int && p != old(self).current_player_id as int
                    && scan_offset(old(self).current_player_id as int, p, NUM_PLAYERS as int)
                    < scan_offset(
                    old(self).current_player_id as int,
                    final(self).current_player_id as int,
                    NUM_PLAYERS as int,
                ) ==> #[trigger] final(self).passed_player_ids.spec_contains(p),
            ({
                let cur = old(self).current_player_id as int;
                ||| {
                    &&& final(self).played_hands@ == old(self).played_hands@
                    &&& final(players)@ == old(players)@
                    &&& (forall|j: int|
                        final(self).passed_player_ids.spec_contains(j) <==> (old(
                            self,
                        ).passed_player_ids.spec_contains(j) || j == cur))
                    &&& final(self).passed_player_ids.spec_count() == old(
                        self,
                    ).passed_player_ids.spec_count() + 1
                }
                ||| {
                    let h = final(self).played_hands@.last();
                    &&& final(self).played_hands@ == old(self).played_hands@.push(h)
                    &&& h.wf()
                    &&& !(h is Pass)
                    &&& order_spec(old(self).played_hands@.last(), h) == Some(Ordering::Less)
                    &&& hand_in_cards_spec(h, old(players)@[cur].cards@)
                    &&& (forall|j: int|
                        0 <= j < NUM_PLAYERS as int && j != cur ==> final(players)@[j] == old(
                            players,
                        )@[j])
                    &&& final(players)@[cur].cards@ == remove_all(
                        old(players)@[cur].cards@,
                        h.spec_cards(),
                    )
                    &&& final(players)@[cur].cards@.len() < old(players)@[cur].cards@.len()
                    &&& final(self).passed_player_ids == old(self).passed_player_ids
                }
            }),
    {
        let ghost pre = *self;
        let cur = self.current_player_id;
        let n = self.played_hands.len();
        let hand_to_beat = &self.played_hands[n - 1];
        proof {
            assert(self.played_hands@[n - 1].wf());
            assert(self.played_hands@.last() == self.played_hands@[n - 1]);
        }
        let attempt = responder.offer_play(cur, hand_to_beat, &players[cur].cards);

        if attempt.is_pass() {
            self.passed_player_ids.insert(cur);
        } else {
            proof {
                lemma_wf_hand_distinct(attempt);
                lemma_removable_of_distinct(players@[cur as int].cards@, attempt.spec_cards());
                lemma_remove_all_len(players@[cur as int].cards@, attempt.spec_cards());
                assert(attempt.spec_cards().len() >= 1);
            }
            let mut player = players.remove(cur);
            player.remove_hand_from_cards(&attempt);
            players.insert(cur, player);
            proof {
                assert(players@ =~= old(players)@.update(cur as int, players@[cur as int]));
            }
            self.played_hands.push(attempt);
        }

        proof {
            self.passed_player_ids.lemma_count_bounds();
            if attempt is Pass {
                pre.passed_player_ids.lemma_count_bounds();
                self.passed_player_ids.lemma_someone_left();
            } else {
                self.passed_player_ids.lemma_two_left(cur as int);
            }
        }
        let next = next_player_id(cur, &self.passed_player_ids, NUM_PLAYERS);
        self.current_player_id = next;
    }

    /// Where the trick stands: the game is over as soon as any player
    /// is out of cards (the lowest such seat wins); failing that, the
    /// trick is over when everyone but one player has passed, and that
    /// player wins the trick; otherwise play continues.
    pub fn is_trick_over(&self, players: &Vec<Player>) -> (status: StepStatus)
        requires
            players@.len() == NUM_PLAYERS as int,
            self.passed_player_ids.spec_len() == NUM_PLAYERS as int,
        ensures
            match status {
                StepStatus::GameOver(w) => {
                    &&& (w as int) < NUM_PLAYERS as int
                    &&& players@[w as int].cards@.len() == 0
                    &&& (forall|j: int|
                        0 <= j < w as int ==> (#[trigger] players@[j]).cards@.len() >= 1)
                },
                StepStatus::TrickOver(w) => {
                    &&& (forall|i: int|
                        0 <= i < NUM_PLAYERS as int ==> (#[trigger] players@[i]).cards@.len()
                            >= 1)
                    &&& self.passed_player_ids.spec_count() == NUM_PLAYERS as int - 1
                    &&& (w as int) < NUM_PLAYERS as int
                    &&& !self.passed_player_ids.spec_contains(w as int)
                    &&& (forall|j: int|
                        0 <= j < NUM_PLAYERS as int && j != w as int
                            ==> self.passed_player_ids.spec_contains(j))
                },
                StepStatus::Continue => {
                    &&& (forall|i: int|
                        0 <= i < NUM_PLAYERS as int ==> (#[trigger] players@[i]).cards@.len()
                            >= 1)
                    &&& self.passed_player_ids.spec_count() != NUM_PLAYERS as int - 1
                },
            },
    {
        let mut i: usize = 0;
        while i < NUM_PLAYERS
            invariant
                0 <= i <= NUM_PLAYERS as int,
                players@.len() == NUM_PLAYERS as int,
                forall|j: int| 0 <= j < i ==> (#[trigger] players@[j]).cards@.len() >= 1,
            decreases NUM_PLAYERS as int - i,
        {
            if players[i].cards.len() == 0 {
                return StepStatus::GameOver(i);
            }
            i = i + 1;
        }

        if self.passed_player_ids.len() == NUM_PLAYERS - 1 {
            let mut w: usize = 0;
            while w < NUM_PLAYERS
                invariant
                    0 <= w <= NUM_PLAYERS as int,
                    players@.len() == NUM_PLAYERS as int,
                    forall|j: int|
                        0 <= j < NUM_PLAYERS as int ==> (#[trigger] players@[j]).cards@.len()
                            >= 1,
                    self.passed_player_ids.spec_len() == NUM_PLAYERS as int,
                    self.passed_player_ids.spec_count() == NUM_PLAYERS as int - 1,
                    forall|j: int| 0 <= j < w ==> self.passed_player_ids.spec_contains(j),
                decreases NUM_PLAYERS as int - w,
            {
                if !self.passed_player_ids.contains(w) {
                    proof {
                        self.passed_player_ids.lemma_all_but_one(w as int);
                    }
                    return StepStatus::TrickOver(w);
                }
                w = w + 1;
            }
            proof {
                self.passed_player_ids.lemma_someone_left();
                assert(false);
            }
            StepStatus::Continue
        } else {
            StepStatus::Continue
        }
    }

    /// Runs the trick to its end: reports the game over at once if the
    /// opening play emptied the starter's inventory, and otherwise
    /// plays turns, re-checking after each one, until the trick or the
    /// game is over.
    pub fn do_trick<R: TurnResponder>(&mut self, players: &mut Vec<Player>, responder: &mut R)
        -> (result: TrickResult)
        requires
            old(self).wf(),
            old(players)@.len() == NUM_PLAYERS as int,
            old(self).passed_player_ids.spec_count() < NUM_PLAYERS as int - 1,
        ensures
            final(players)@.len() == NUM_PLAYERS as int,
            match result {
                TrickResult::GameOver(w) => (w as int) < NUM_PLAYERS as int && final(players)@[
                    w as int].cards@.len() == 0,
                TrickResult::NewTrick(w) => {
                    &&& (forall|i: int|
                        0 <= i < NUM_PLAYERS as int ==> (#[trigger] final(players)@[
                        i]).cards@.len() >= 1)
                    &&& (w as int) < NUM_PLAYERS as int
                    &&& final(self).passed_player_ids.spec_count() == NUM_PLAYERS as int - 1
                    &&& !final(self).passed_player_ids.spec_contains(w as int)
                    &&& (forall|j: int|
                        0 <= j < NUM_PLAYERS as int && j != w as int ==> final(
                            self
                        ).passed_player_ids.spec_contains(j))
                },
            },
    {
        let mut status = self.is_trick_over(players);
        loop
            invariant
                self.wf(),
                players@.len() == NUM_PLAYERS as int,
                match status {
                    StepStatus::GameOver(w) => (w as int) < NUM_PLAYERS as int && players@[
                        w as int].cards@.len() == 0,
                    StepStatus::TrickOver(w) => {
                        &&& (w as int) < NUM_PLAYERS as int
                        &&& (forall|i: int|
                            0 <= i < NUM_PLAYERS as int ==> (#[trigger] players@[
                            i]).cards@.len() >= 1)
                        &&& self.passed_player_ids.spec_count() == NUM_PLAYERS as int - 1
                        &&& !self.passed_player_ids.spec_contains(w as int)
                        &&& (forall|j: int|
                            0 <= j < NUM_PLAYERS as int && j != w as int
                                ==> self.passed_player_ids.spec_contains(j))
                    },
                    StepStatus::Continue => {
                        &&& (forall|i: int|
                            0 <= i < NUM_PLAYERS as int ==> (#[trigger] players@[
                            i]).cards@.len() >= 1)
                        &&& self.passed_player_ids.spec_count() != NUM_PLAYERS as int - 1
                    },
                },
            decreases total_cards(players@), NUM_PLAYERS as int
                - self.passed_player_ids.spec_count(),
        {
            match status {
                StepStatus::GameOver(winner) => {
                    return TrickResult::GameOver(winner);
                },
                StepStatus::TrickOver(last_player) => {
                    return TrickResult::NewTrick(last_player);
                },
                StepStatus::Continue => {},
            }
            let ghost players_pre = players@;
            let ghost self_pre = *self;
            proof {
                self.passed_player_ids.lemma_count_bounds();
            }
            self.do_player_turn(players, responder);
            proof {
                if players@ == players_pre {
                    lemma_total_cards_congruence(players_pre, players@);
                } else {
                    lemma_total_cards_shrink(
                        players_pre,
                        players@,
                        self_pre.current_player_id as int,
                    );
                }
            }
            status = self.is_trick_over(players);
        }
    }
}

/// Performs one whole trick: starts it with the given player's opening
/// hand and plays turns until the trick or the game is over. The
/// caller keeps calling with each trick's winner until the game ends.
pub fn perform_trick<R: TurnResponder>(
    starting_player_idx: usize,
    players: &mut Vec<Player>,
    responder: &mut R,
    is_first_trick_of_game: bool,
) -> (result: TrickResult)
    requires
        old(players)@.len() == NUM_PLAYERS as int,
        starting_player_idx < NUM_PLAYERS,
        old(players)@[starting_player_idx as int].cards@.len() >= 1,
        is_first_trick_of_game ==> ascending_cards(
            old(players)@[starting_player_idx as int].cards@,
        ) && old(players)@[starting_player_idx as int].cards@[0] == spec_three_of_clubs(),
    ensures
        final(players)@.len() == NUM_PLAYERS as int,
        match result {
            TrickResult::GameOver(w) => (w as int) < NUM_PLAYERS as int && final(players)@[
                w as int].cards@.len() == 0,
            TrickResult::NewTrick(w) => (w as int) < NUM_PLAYERS as int && (forall|i: int|
                0 <= i < NUM_PLAYERS as int ==> (#[trigger] final(players)@[i]).cards@.len()
                    >= 1),
        },
{
    let mut trick = Trick::start(starting_player_idx, players, responder, is_first_trick_of_game);
    trick.do_trick(players, responder)
}

} // verus!

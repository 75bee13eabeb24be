//! Game-level helpers around the trick state machine. The surrounding
//! game loop deals the cards, finds the player who must begin, and
//! performs tricks until one player runs out of cards.

use vstd::prelude::*;

use crate::card::{spec_three_of_clubs, three_of_clubs, Card};
use crate::player::{cards_contain, Player};

verus! {

/// The player who was dealt the Three of Clubs; only that player may
/// begin the game.
pub fn find_player_with_three_of_clubs(players: &Vec<Player>) -> (idx: usize)
    requires
        exists|i: int|
            0 <= i < players@.len() && (#[trigger] players@[i]).cards@.contains(
                spec_three_of_clubs(),
            ),
    ensures
        0 <= idx < players@.len(),
        players@[idx as int].cards@.contains(spec_three_of_clubs()),
        forall|j: int|
            0 <= j < idx ==> !(#[trigger] players@[j]).cards@.contains(spec_three_of_clubs()),
{
    let n = players.len();
    let mut i: usize = 0;
    while i < n
        invariant
            0 <= i <= n == players@.len(),
            exists|k: int|
                0 <= k < players@.len() && (#[trigger] players@[k]).cards@.contains(
                    spec_three_of_clubs(),
                ),
            forall|j: int|
                0 <= j < i ==> !(#[trigger] players@[j]).cards@.contains(spec_three_of_clubs()),
        decreases n - i,
    {
        if cards_contain(players[i].cards.as_slice(), three_of_clubs()) {
            return i;
        }
        i = i + 1;
    }
    proof {
        assert(false);
    }
    0
}

} // verus!

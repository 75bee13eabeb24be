//! Identifies the player who is up next.

use vstd::prelude::*;

use crate::trick::passed_players::PassedPlayers;

verus! {

/// A table position offset by `k` seats, wrapped around a table of
/// `n` players.
pub open spec fn wrap(x: int, n: int) -> int {
    if x < n {
        x
    } else {
        x - n
    }
}

/// How many seats after `current` the seat `p` comes, walking around
/// a table of `n` players.
pub open spec fn scan_offset(current: int, p: int, n: int) -> int {
    if p >= current {
        p - current
    } else {
        p + n - current
    }
}

/// The player after `current` who has not passed: the scan tries
/// `current + 1` through `current + n - 1` around the table and
/// returns the first id not in the passed set. Someone other than
/// `current` must remain unpassed, and the result is never `current`
/// itself: the scan never re-examines `current`.
pub fn next_player_id(current_player_id: usize, passed_player_ids: &PassedPlayers,
    num_players: usize) -> (next: usize)
    requires
        current_player_id < num_players,
        num_players < 0x4000_0000,
        passed_player_ids.spec_len() == num_players,
        exists|i: int|
            0 <= i < num_players && i != current_player_id
                && !passed_player_ids.spec_contains(i),
    ensures
        next < num_players,
        next != current_player_id,
        !passed_player_ids.spec_contains(next as int),
        forall|p: int|
            0 <= p < num_players && p != current_player_id && scan_offset(
                current_player_id as int,
                p,
                num_players as int,
            ) < scan_offset(current_player_id as int, next as int, num_players as int)
                ==> #[trigger] passed_player_ids.spec_contains(p),
{
    let n = num_players;
    let cur = current_player_id;
    let mut i: usize = 1;
    while i < n
        invariant
            1 <= i <= n,
            cur == current_player_id,
            n == num_players,
            cur < n,
            n < 0x4000_0000,
            passed_player_ids.spec_len() == n,
            forall|p: int|
                0 <= p < n && p != cur && scan_offset(cur as int, p, n as int) < i
                    ==> #[trigger] passed_player_ids.spec_contains(p),
        decreases n - i,
    {
        let next_id = if cur + i < n {
            cur + i
        } else {
            cur + i - n
        };
        proof {
            assert(scan_offset(cur as int, next_id as int, n as int) == i);
        }
        if !passed_player_ids.contains(next_id) {
            return next_id;
        }
        i = i + 1;
    }
    proof {
        let w = choose|j: int|
            0 <= j < n && j != cur && !passed_player_ids.spec_contains(j);
        assert(scan_offset(cur as int, w, n as int) < n);
        assert(passed_player_ids.spec_contains(w));
        assert(false);
    }
    0
}

} // verus!

//! Whose turn comes next: the seats are taken in a circle.

use vstd::prelude::*;
use vstd::arithmetic::div_mod::{
    lemma_add_mod_noop, lemma_mod_add_multiples_vanish, lemma_mod_equivalence, lemma_mod_self_0,
    lemma_small_mod,
};
use crate::game_state::GameState;
use crate::player::PlayerID;

verus! {

/// The seat after `seat` among `n` seats: the next one, and the first after
/// the last.
pub open spec fn next_seat(n: nat, seat: PlayerID) -> PlayerID {
    ((seat + 1) % (n as int)) as PlayerID
}

/// The seat reached from `start` in `steps` steps round the table.
pub open spec fn seat_after(n: nat, start: PlayerID, steps: nat) -> PlayerID {
    ((start + steps) % (n as int)) as PlayerID
}

/// How many steps lead from `start` to `seat` round a table of `n` seats.
pub open spec fn steps_to(n: nat, start: PlayerID, seat: PlayerID) -> nat {
    if seat >= start {
        (seat - start) as nat
    } else {
        (seat + n - start) as nat
    }
}

/// The seat after `current`, unless that is where the round began.
pub open spec fn next_seat_until(n: nat, starter: PlayerID, current: PlayerID) -> Option<PlayerID> {
    if next_seat(n, current) == starter {
        None
    } else {
        Some(next_seat(n, current))
    }
}

/// The seat after an occupied seat is the one beside it, or the first seat
/// after the last.
pub proof fn lemma_next_seat(n: nat, seat: PlayerID)
    requires
        seat < n <= usize::MAX,
    ensures
        next_seat(n, seat) < n,
        seat + 1 < n ==> next_seat(n, seat) == seat + 1,
        seat + 1 == n ==> next_seat(n, seat) == 0,
{
    if seat + 1 < n {
        lemma_small_mod((seat + 1) as nat, n);
    } else {
        lemma_mod_self_0(n as int);
    }
}

/// Going round the table step by step is adding up the steps: no steps
/// leave a player in the seat, and one more step leads to the seat after.
pub proof fn lemma_seat_after_step(n: nat, start: PlayerID, steps: nat)
    requires
        start < n <= usize::MAX,
    ensures
        seat_after(n, start, 0) == start,
        seat_after(n, start, steps) < n,
        seat_after(n, start, steps + 1) == next_seat(n, seat_after(n, start, steps)),
{
    lemma_small_mod(start as nat, n);
    lemma_add_mod_noop(start + steps, 1, n as int);
    if n > 1 {
        lemma_small_mod(1, n);
    }
}

/// The turn goes round the table: starting after any seat, it comes to
/// every other seat exactly once before it is back, after as many steps as
/// there are seats. No two of the first `n` stops are the same seat, and
/// every seat is one of them.
pub proof fn lemma_rotation_visits_all_once(n: nat, start: PlayerID)
    requires
        start < n <= usize::MAX,
    ensures
        seat_after(n, start, n) == start,
        forall|j: nat, k: nat| j < k < n ==> seat_after(n, start, j) != seat_after(n, start, k),
        forall|k: nat| 0 < k < n ==> #[trigger] seat_after(n, start, k) != start,
        forall|seat: PlayerID|
            seat < n ==> seat_after(n, start, #[trigger] steps_to(n, start, seat)) == seat
                && steps_to(n, start, seat) < n,
{
    lemma_mod_add_multiples_vanish(start as int, n as int);
    lemma_small_mod(start as nat, n);
    assert forall|j: nat, k: nat| j < k < n implies seat_after(n, start, j) != seat_after(
        n,
        start,
        k,
    ) by {
        if (start + j) % (n as int) == (start + k) % (n as int) {
            lemma_small_mod((k - j) as nat, n);
            assert(((start + k) - (start + j)) % (n as int) == 0) by {
                lemma_mod_equivalence(start + k, start + j, n as int);
            }
        }
    }
    assert forall|k: nat| 0 < k < n implies #[trigger] seat_after(n, start, k) != start by {
        assert(seat_after(n, start, 0) == start);
    }
    assert forall|seat: PlayerID| seat < n implies seat_after(
        n,
        start,
        #[trigger] steps_to(n, start, seat),
    ) == seat && steps_to(n, start, seat) < n by {
        if seat >= start {
            lemma_small_mod(seat as nat, n);
        } else {
            lemma_mod_add_multiples_vanish(seat as int, n as int);
            lemma_small_mod(seat as nat, n);
        }
    }
}

impl GameState {
    /// The player whose turn follows that of `current`.
    pub fn get_next_player_rounded(&self, current: PlayerID) -> (next: PlayerID)
        requires
            current < self.players.len(),
        ensures
            next == next_seat(self@.seats(), current),
            next < self.players.len(),
    {
        proof {
            lemma_next_seat(self@.seats(), current);
        }
        if current + 1 == self.players.len() {
            0
        } else {
            current + 1
        }
    }

    /// The player whose turn follows that of `current`, or nothing when the
    /// turn would come back to `starter`.
    pub fn get_next_player(&self, starter: PlayerID, current: PlayerID) -> (next: Option<PlayerID>)
        requires
            current < self.players.len(),
        ensures
            next == next_seat_until(self@.seats(), starter, current),
    {
        let next = self.get_next_player_rounded(current);
        if next == starter {
            None
        } else {
            Some(next)
        }
    }
}

} // verus!

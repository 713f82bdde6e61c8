//! The phases of a tick that update the scoreboard: credit for kills and
//! rewards for staying alive.

use crate::clock::{deadline, deadline_spec, SURVIVAL_POINT_INTERVAL};
use crate::models::PlayerState;
use std::collections::HashMap;
use vstd::prelude::*;
use vstd::std_specs::hash::*;

verus! {

/// The points of `id` on the board; a player without an entry has none.
pub open spec fn points(board: Map<u32, u32>, id: u32) -> u32 {
    if board.contains_key(id) {
        board[id]
    } else {
        0
    }
}

/// The board after `id` gained one point. The highest score stays as it is.
pub open spec fn bumped(board: Map<u32, u32>, id: u32) -> Map<u32, u32> {
    let score = points(board, id);
    board.insert(
        id,
        if score < u32::MAX {
            (score + 1) as u32
        } else {
            score
        },
    )
}

/// Gives `id` one point.
pub fn bump(board: &mut HashMap<u32, u32>, id: u32)
    ensures
        final(board)@ == bumped(old(board)@, id),
{
    broadcast use group_hash_axioms;

    let score: u32 = match board.get(&id) {
        Some(s) => *s,
        None => 0,
    };
    let raised: u32 = if score < u32::MAX { score + 1 } else { score };
    board.insert(id, raised);
}

/// The board after every hit gave its shooter one point.
pub open spec fn credited(board: Map<u32, u32>, hits: Seq<u32>) -> Map<u32, u32>
    decreases hits.len(),
{
    if hits.len() == 0 {
        board
    } else {
        bumped(credited(board, hits.drop_last()), hits.last())
    }
}

/// Gives one point to the shooter of every hit.
pub fn credit(board: &mut HashMap<u32, u32>, hits: &Vec<u32>)
    ensures
        final(board)@ == credited(old(board)@, hits@),
{
    let mut i: usize = 0;
    assert(hits@.take(0) =~= Seq::<u32>::empty());
    while i < hits.len()
        invariant
            i <= hits.len(),
            board@ == credited(old(board)@, hits@.take(i as int)),
        decreases hits.len() - i,
    {
        assert(hits@.take(i + 1).drop_last() =~= hits@.take(i as int));
        bump(board, hits[i]);
        i += 1;
    }
    assert(hits@.take(hits.len() as int) =~= hits@);
}

/// The scoreboard together with the times of the next survival rewards.
pub struct Ledger {
    pub board: Map<u32, u32>,
    pub timers: Map<u32, u64>,
}

/// The ledger after the player `id` was looked at: if its reward is due, it
/// gains one point where the living are a crowd, and its next reward is one
/// interval away.
pub open spec fn reward_one(l: Ledger, id: u32, crowd: bool, now: u64) -> Ledger {
    if l.timers.contains_key(id) && l.timers[id] <= now {
        Ledger {
            board: if crowd {
                bumped(l.board, id)
            } else {
                l.board
            },
            timers: l.timers.insert(id, deadline_spec(now, SURVIVAL_POINT_INTERVAL)),
        }
    } else {
        l
    }
}

/// The ledger after each of the players was looked at, in their order.
pub open spec fn rewarded(l: Ledger, players: Seq<PlayerState>, crowd: bool, now: u64) -> Ledger
    decreases players.len(),
{
    if players.len() == 0 {
        l
    } else {
        reward_one(rewarded(l, players.drop_last(), crowd, now), players.last().id, crowd, now)
    }
}

/// The ledger after the survival rewards of the living: points are given
/// only where more than one player is alive.
pub open spec fn survival_rewards(l: Ledger, players: Seq<PlayerState>, now: u64) -> Ledger {
    rewarded(l, players, players.len() > 1, now)
}

/// Rewards the living for staying alive.
pub fn reward(
    board: &mut HashMap<u32, u32>,
    timers: &mut HashMap<u32, u64>,
    players: &Vec<PlayerState>,
    now: u64,
)
    ensures
        (Ledger { board: final(board)@, timers: final(timers)@ }) == survival_rewards(
            Ledger { board: old(board)@, timers: old(timers)@ },
            players@,
            now,
        ),
{
    broadcast use group_hash_axioms;

    let crowd: bool = players.len() > 1;
    let ghost start = Ledger { board: board@, timers: timers@ };
    let mut i: usize = 0;
    assert(players@.take(0) =~= Seq::<PlayerState>::empty());
    while i < players.len()
        invariant
            i <= players.len(),
            (Ledger { board: board@, timers: timers@ }) == rewarded(
                start,
                players@.take(i as int),
                crowd,
                now,
            ),
        decreases players.len() - i,
    {
        assert(players@.take(i + 1).drop_last() =~= players@.take(i as int));
        let id: u32 = players[i].id;
        let is_due: bool = match timers.get(&id) {
            Some(at) => *at <= now,
            None => false,
        };
        if is_due {
            if crowd {
                bump(board, id);
            }
            timers.insert(id, deadline(now, SURVIVAL_POINT_INTERVAL));
        }
        i += 1;
    }
    assert(players@.take(players.len() as int) =~= players@);
}

} // verus!

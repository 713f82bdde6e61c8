//! The phases of a tick that bring players back, spawn items, move what
//! moves, and drop the bullets that left the world.

use crate::clock::{elapsed, elapsed_spec, ITEM_SPAWN_TIME, MAX_CONCURRENT_ITEMS};
use crate::models::{BulletState, DeadPlayer, GameConfig, Item, PlayerState};
use crate::seqs::lemma_filter_step;
use vstd::prelude::*;

verus! {

/// Every player of the sequence is valid in the world of `config`.
pub open spec fn players_valid(players: Seq<PlayerState>, config: GameConfig) -> bool {
    forall|i: int| 0 <= i < players.len() ==> (#[trigger] players[i]).valid(config)
}

/// Every dead player of the sequence is valid in the world of `config`.
pub open spec fn dead_valid(dead: Seq<DeadPlayer>, config: GameConfig) -> bool {
    forall|i: int| 0 <= i < dead.len() ==> (#[trigger] dead[i]).player.valid(config)
}

/// Every bullet of the sequence is valid.
pub open spec fn bullets_valid(bullets: Seq<BulletState>) -> bool {
    forall|i: int| 0 <= i < bullets.len() ==> (#[trigger] bullets[i]).valid()
}

/// Every bullet of the sequence is as a move may leave it.
pub open spec fn bullets_in_flight(bullets: Seq<BulletState>) -> bool {
    forall|i: int| 0 <= i < bullets.len() ==> (#[trigger] bullets[i]).in_flight()
}

/// Every item of the sequence is valid in the world of `config`.
pub open spec fn items_valid(items: Seq<Item>, config: GameConfig) -> bool {
    forall|i: int| 0 <= i < items.len() ==> (#[trigger] items[i]).valid(config)
}

/// The draw at place `k`, or zero where the draws have run out.
pub open spec fn draw_at(draws: Seq<u64>, k: int) -> u64 {
    if 0 <= k < draws.len() {
        draws[k]
    } else {
        0
    }
}

/// Reads the draw at place `k`.
pub fn take_draw(draws: &Vec<u64>, k: usize) -> (r: u64)
    ensures
        r == draw_at(draws@, k as int),
{
    if k < draws.len() {
        draws[k]
    } else {
        0
    }
}

/// The draws that are left after `n` of them were used.
pub open spec fn advance(draws: Seq<u64>, n: int) -> Seq<u64> {
    if 0 <= n <= draws.len() {
        draws.skip(n)
    } else {
        Seq::empty()
    }
}

/// Using draws one after the other is using them all at once.
pub proof fn lemma_advance(draws: Seq<u64>, n: int, k: int)
    requires
        0 <= n,
        0 <= k,
    ensures
        draw_at(advance(draws, n), k) == draw_at(draws, n + k),
        advance(advance(draws, n), k) == advance(draws, n + k),
{
    if n <= draws.len() {
        if k <= draws.len() - n {
            assert(draws.skip(n).skip(k) =~= draws.skip(n + k));
        } else {
            assert(advance(advance(draws, n), k) =~= advance(draws, n + k));
        }
    } else {
        assert(advance(advance(draws, n), k) =~= advance(draws, n + k));
    }
}

/// Uses up one draw: returns it and moves the cursor past it.
pub fn next_draw(draws: &Vec<u64>, cursor: &mut usize) -> (r: u64)
    requires
        *old(cursor) <= draws.len(),
    ensures
        *final(cursor) <= draws.len(),
        r == draw_at(draws@.skip(*old(cursor) as int), 0),
        draws@.skip(*final(cursor) as int) == advance(draws@.skip(*old(cursor) as int), 1),
{
    if *cursor < draws.len() {
        let r: u64 = draws[*cursor];
        *cursor = *cursor + 1;
        assert(draws@.skip(*old(cursor) as int).skip(1) =~= draws@.skip(*cursor as int));
        r
    } else {
        assert(draws@.skip(*cursor as int) =~= Seq::<u64>::empty());
        0
    }
}

/// The test that a dead player may come back at `now`.
pub open spec fn due(now: u64) -> spec_fn(DeadPlayer) -> bool {
    |d: DeadPlayer| d.respawn <= now
}

/// The test that a dead player has to wait beyond `now`.
pub open spec fn pending(now: u64) -> spec_fn(DeadPlayer) -> bool {
    |d: DeadPlayer| d.respawn > now
}

/// The players that come back at `now`, in the order in which they died.
pub open spec fn revived(dead: Seq<DeadPlayer>, now: u64) -> Seq<PlayerState> {
    dead.filter(due(now)).map_values(|d: DeadPlayer| d.player)
}

/// Moves every dead player whose time has come to the end of the living.
pub(crate) fn revive(
    players: &mut Vec<PlayerState>,
    dead: &mut Vec<DeadPlayer>,
    now: u64,
    Ghost(config): Ghost<GameConfig>,
)
    requires
        players_valid(old(players)@, config),
        dead_valid(old(dead)@, config),
    ensures
        final(players)@ == old(players)@ + revived(old(dead)@, now),
        final(dead)@ == old(dead)@.filter(pending(now)),
        players_valid(final(players)@, config),
        dead_valid(final(dead)@, config),
{
    let mut waiting: Vec<DeadPlayer> = Vec::new();
    let ghost before = players@;
    let mut i: usize = 0;
    assert(dead@.take(0) =~= Seq::<DeadPlayer>::empty());
    assert(before + revived(dead@.take(0), now) =~= before);
    while i < dead.len()
        invariant
            i <= dead.len(),
            dead@ == old(dead)@,
            players@ == before + revived(dead@.take(i as int), now),
            waiting@ == dead@.take(i as int).filter(pending(now)),
            players_valid(players@, config),
            dead_valid(dead@, config),
            dead_valid(waiting@, config),
        decreases dead.len() - i,
    {
        proof {
            lemma_filter_step(dead@, pending(now), i as int);
            lemma_filter_step(dead@, due(now), i as int);
        }
        let corpse: DeadPlayer = dead[i];
        if corpse.respawn <= now {
            players.push(corpse.player);
            assert(players@ =~= before + revived(dead@.take(i + 1), now));
        } else {
            waiting.push(corpse);
        }
        i += 1;
    }
    assert(dead@.take(dead.len() as int) =~= dead@);
    *dead = waiting;
}

/// Whether an item is due at `now`: the spawn time has passed since the last
/// spawn and there is room for one more.
pub open spec fn item_due(items: Seq<Item>, last_spawn: u64, now: u64) -> bool {
    elapsed_spec(last_spawn, now, ITEM_SPAWN_TIME) && items.len() < MAX_CONCURRENT_ITEMS
}

/// Computes [`item_due`].
pub fn is_item_due(items: &Vec<Item>, last_spawn: u64, now: u64) -> (r: bool)
    ensures
        r == item_due(items@, last_spawn, now),
{
    elapsed(last_spawn, now, ITEM_SPAWN_TIME) && items.len() < MAX_CONCURRENT_ITEMS
}

/// The bullets after `dt` microseconds of flight.
pub open spec fn bullets_advanced(bullets: Seq<BulletState>, dt: u32) -> Seq<BulletState> {
    bullets.map_values(|b: BulletState| b.advanced(dt))
}

/// Moves every bullet along its heading.
pub fn move_bullets(bullets: &mut Vec<BulletState>, dt: u32)
    requires
        bullets_valid(old(bullets)@),
    ensures
        final(bullets)@ == bullets_advanced(old(bullets)@, dt),
        bullets_in_flight(final(bullets)@),
{
    let mut i: usize = 0;
    while i < bullets.len()
        invariant
            i <= bullets.len(),
            bullets.len() == old(bullets).len(),
            forall|k: int| 0 <= k < i ==> #[trigger] bullets@[k] == old(bullets)@[k].advanced(dt),
            forall|k: int| i <= k < bullets.len() ==> #[trigger] bullets@[k] == old(bullets)@[k],
            forall|k: int| 0 <= k < i ==> (#[trigger] bullets@[k]).in_flight(),
            bullets_valid(old(bullets)@),
        decreases bullets.len() - i,
    {
        let mut bullet: BulletState = bullets[i];
        bullet.advance(dt);
        bullets.set(i, bullet);
        i += 1;
    }
    assert(bullets@ =~= bullets_advanced(old(bullets)@, dt));
}

/// The players after `dt` microseconds: moved and kept inside the world.
pub open spec fn players_advanced(
    players: Seq<PlayerState>,
    config: GameConfig,
    dt: u32,
) -> Seq<PlayerState> {
    players.map_values(|p: PlayerState| p.advanced(config, dt))
}

/// Moves every player along its heading and keeps it inside the world.
pub fn move_players(players: &mut Vec<PlayerState>, config: GameConfig, dt: u32)
    requires
        config.valid(),
        players_valid(old(players)@, config),
    ensures
        final(players)@ == players_advanced(old(players)@, config, dt),
        players_valid(final(players)@, config),
{
    let mut i: usize = 0;
    while i < players.len()
        invariant
            i <= players.len(),
            players.len() == old(players).len(),
            config.valid(),
            forall|k: int|
                0 <= k < i ==> #[trigger] players@[k] == old(players)@[k].advanced(config, dt),
            forall|k: int| i <= k < players.len() ==> #[trigger] players@[k] == old(players)@[k],
            forall|k: int| 0 <= k < i ==> (#[trigger] players@[k]).valid(config),
            players_valid(old(players)@, config),
        decreases players.len() - i,
    {
        let mut player: PlayerState = players[i];
        player.advance(config, dt);
        players.set(i, player);
        i += 1;
    }
    assert(players@ =~= players_advanced(old(players)@, config, dt));
}

/// The test that a bullet lies inside the world widened by its radius.
pub open spec fn inside(config: GameConfig) -> spec_fn(BulletState) -> bool {
    |b: BulletState| b.in_bounds_spec(config)
}

/// Drops the bullets that left the world.
pub fn cull_bullets(bullets: &mut Vec<BulletState>, config: GameConfig)
    requires
        config.valid(),
        bullets_in_flight(old(bullets)@),
    ensures
        final(bullets)@ == old(bullets)@.filter(inside(config)),
        bullets_valid(final(bullets)@),
{
    let mut kept: Vec<BulletState> = Vec::new();
    let mut i: usize = 0;
    assert(bullets@.take(0) =~= Seq::<BulletState>::empty());
    while i < bullets.len()
        invariant
            i <= bullets.len(),
            config.valid(),
            bullets@ == old(bullets)@,
            bullets_in_flight(bullets@),
            kept@ == bullets@.take(i as int).filter(inside(config)),
            bullets_valid(kept@),
        decreases bullets.len() - i,
    {
        proof {
            lemma_filter_step(bullets@, inside(config), i as int);
        }
        let bullet: BulletState = bullets[i];
        if bullet.in_bounds(config) {
            kept.push(bullet);
        }
        i += 1;
    }
    assert(bullets@.take(bullets.len() as int) =~= bullets@);
    *bullets = kept;
}

} // verus!

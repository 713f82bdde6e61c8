//! The phases of a tick in which entities destroy one another: bullets that
//! meet, players that run into each other, and bullets that hit players.

use crate::clock::{deadline, deadline_spec, DEAD_PUNISH, SURVIVAL_TIMEOUT};
use crate::collision::{clashing_ids, find_clashing, only, tagged_in, tagged_out, without};
use crate::geometry::{is_colliding, overlap, Triangle};
use crate::models::{BulletState, DeadPlayer, GameConfig, PlayerState};
use crate::motion::{
    advance, bullets_valid, dead_valid, draw_at, lemma_advance, next_draw, players_valid,
};
use crate::seqs::{lemma_filter_all, lemma_filter_step};
use std::collections::{HashMap, HashSet};
use vstd::prelude::*;
use vstd::std_specs::hash::*;

verus! {

/// The bullets that are left when every bullet that overlaps a bullet with
/// another id is gone.
pub open spec fn annihilated(bullets: Seq<BulletState>) -> Seq<BulletState> {
    bullets.filter(tagged_out::<BulletState>(clashing_ids(bullets)))
}

/// Removes every bullet that overlaps a bullet with another id.
pub fn annihilate(bullets: &mut Vec<BulletState>)
    requires
        bullets_valid(old(bullets)@),
    ensures
        final(bullets)@ == annihilated(old(bullets)@),
        bullets_valid(final(bullets)@),
{
    let doomed: HashSet<u32> = find_clashing(bullets);
    let kept: Vec<BulletState> = without(bullets, &doomed);
    proof {
        lemma_filter_all(
            bullets@,
            tagged_out::<BulletState>(doomed@),
            |b: BulletState| b.valid(),
        );
    }
    *bullets = kept;
}

/// The dead players that the victims become at `now`: each waits for
/// [`DEAD_PUNISH`] at a place that two draws pick.
pub open spec fn bury(
    victims: Seq<PlayerState>,
    config: GameConfig,
    draws: Seq<u64>,
    now: u64,
) -> Seq<DeadPlayer> {
    Seq::new(
        victims.len(),
        |m: int|
            DeadPlayer {
                respawn: deadline_spec(now, DEAD_PUNISH),
                player: victims[m].relocated(
                    config,
                    draw_at(draws, 2 * m),
                    draw_at(draws, 2 * m + 1),
                ),
            },
    )
}

/// Moves one victim to a drawn place and appends it to the dead.
fn bury_one(
    dead: &mut Vec<DeadPlayer>,
    victim: PlayerState,
    config: GameConfig,
    draws: &Vec<u64>,
    cursor: &mut usize,
    now: u64,
    Ghost(before): Ghost<Seq<DeadPlayer>>,
    Ghost(victims): Ghost<Seq<PlayerState>>,
    Ghost(rest): Ghost<Seq<u64>>,
)
    requires
        config.valid(),
        victim.valid(config),
        *old(cursor) <= draws.len(),
        draws@.skip(*old(cursor) as int) == advance(rest, 2 * (victims.len() as int)),
        old(dead)@ == before + bury(victims, config, rest, now),
        dead_valid(old(dead)@, config),
    ensures
        *final(cursor) <= draws.len(),
        draws@.skip(*final(cursor) as int) == advance(
            rest,
            2 * (victims.push(victim).len() as int),
        ),
        final(dead)@ == before + bury(victims.push(victim), config, rest, now),
        dead_valid(final(dead)@, config),
{
    let ghost m = victims.len() as int;
    proof {
        lemma_advance(rest, 2 * m, 0);
        lemma_advance(rest, 2 * m, 1);
        lemma_advance(rest, 2 * m + 1, 0);
        lemma_advance(rest, 2 * m + 1, 1);
    }
    let draw_x: u64 = next_draw(draws, cursor);
    let draw_y: u64 = next_draw(draws, cursor);
    let mut player: PlayerState = victim;
    player.randomize(config, draw_x, draw_y);
    dead.push(DeadPlayer { respawn: deadline(now, DEAD_PUNISH), player });
    assert(dead@ =~= before + bury(victims.push(victim), config, rest, now));
}

/// What a collision of players leaves: the players that met no other, and
/// behind the dead those that did.
pub open spec fn crash_survivors(players: Seq<PlayerState>) -> Seq<PlayerState> {
    players.filter(tagged_out::<PlayerState>(clashing_ids(players)))
}

/// The players that overlap a player with another id.
pub open spec fn crash_victims(players: Seq<PlayerState>) -> Seq<PlayerState> {
    players.filter(tagged_in::<PlayerState>(clashing_ids(players)))
}

/// Lets every player die that overlaps a player with another id.
pub fn crash_players(
    players: &mut Vec<PlayerState>,
    dead: &mut Vec<DeadPlayer>,
    config: GameConfig,
    draws: &Vec<u64>,
    cursor: &mut usize,
    now: u64,
)
    requires
        config.valid(),
        players_valid(old(players)@, config),
        dead_valid(old(dead)@, config),
        *old(cursor) <= draws.len(),
    ensures
        final(players)@ == crash_survivors(old(players)@),
        final(dead)@ == old(dead)@ + bury(
            crash_victims(old(players)@),
            config,
            draws@.skip(*old(cursor) as int),
            now,
        ),
        *final(cursor) <= draws.len(),
        draws@.skip(*final(cursor) as int) == advance(
            draws@.skip(*old(cursor) as int),
            2 * (crash_victims(old(players)@).len() as int),
        ),
        players_valid(final(players)@, config),
        dead_valid(final(dead)@, config),
{
    let doomed: HashSet<u32> = find_clashing(players);
    let survivors: Vec<PlayerState> = without(players, &doomed);
    let victims: Vec<PlayerState> = only(players, &doomed);
    proof {
        lemma_filter_all(
            players@,
            tagged_out::<PlayerState>(doomed@),
            |p: PlayerState| p.valid(config),
        );
        lemma_filter_all(
            players@,
            tagged_in::<PlayerState>(doomed@),
            |p: PlayerState| p.valid(config),
        );
    }
    let ghost rest = draws@.skip(*cursor as int);
    let ghost before = dead@;
    let mut m: usize = 0;
    assert(victims@.take(0) =~= Seq::<PlayerState>::empty());
    assert(dead@ =~= before + bury(victims@.take(0), config, rest, now));
    assert(advance(rest, 0) =~= rest);
    while m < victims.len()
        invariant
            m <= victims.len(),
            config.valid(),
            players_valid(victims@, config),
            *cursor <= draws.len(),
            draws@.skip(*cursor as int) == advance(rest, 2 * m),
            dead@ == before + bury(victims@.take(m as int), config, rest, now),
            dead_valid(dead@, config),
        decreases victims.len() - m,
    {
        bury_one(
            dead,
            victims[m],
            config,
            draws,
            cursor,
            now,
            Ghost(before),
            Ghost(victims@.take(m as int)),
            Ghost(rest),
        );
        assert(victims@.take(m as int).push(victims@[m as int]) =~= victims@.take(m + 1));
        m += 1;
    }
    assert(victims@.take(victims.len() as int) =~= victims@);
    *players = survivors;
}

/// What the shooting phase works on: the living and the dead, the credit
/// owed to shooters, the ids of the bullets that hit, the survival timers and
/// the draws that are left.
pub struct Battle {
    pub players: Seq<PlayerState>,
    pub dead: Seq<DeadPlayer>,
    pub hits: Seq<u32>,
    pub used: Set<u32>,
    pub timers: Map<u32, u64>,
    pub draws: Seq<u64>,
}

/// The test that a bullet kills a player: they overlap and the player is not
/// the bullet's owner.
pub open spec fn hit_by(bullet: BulletState) -> spec_fn(PlayerState) -> bool {
    |p: PlayerState| overlap(p.circle(), bullet.circle()) && bullet.player_id != p.id
}

/// The test that a bullet spares a player.
pub open spec fn missed_by(bullet: BulletState) -> spec_fn(PlayerState) -> bool {
    |p: PlayerState| !(overlap(p.circle(), bullet.circle()) && bullet.player_id != p.id)
}

/// The timers after each victim's timer was set to `until`.
pub open spec fn reset_timers(
    timers: Map<u32, u64>,
    victims: Seq<PlayerState>,
    until: u64,
) -> Map<u32, u64>
    decreases victims.len(),
{
    if victims.len() == 0 {
        timers
    } else {
        reset_timers(timers, victims.drop_last(), until).insert(victims.last().id, until)
    }
}

/// The battle after one bullet: every player it hits dies and waits at a
/// drawn place, the shooter is owed one point for each of them, their
/// survival timers start anew, and the bullet counts as used if it hit.
pub open spec fn strike_spec(
    b: Battle,
    bullet: BulletState,
    config: GameConfig,
    now: u64,
) -> Battle {
    let victims = b.players.filter(hit_by(bullet));
    Battle {
        players: b.players.filter(missed_by(bullet)),
        dead: b.dead + bury(victims, config, b.draws, now),
        hits: b.hits + Seq::new(victims.len(), |m: int| bullet.player_id),
        used: if victims.len() > 0 {
            b.used.insert(bullet.id)
        } else {
            b.used
        },
        timers: reset_timers(b.timers, victims, deadline_spec(now, SURVIVAL_TIMEOUT)),
        draws: advance(b.draws, 2 * (victims.len() as int)),
    }
}

/// The battle after the bullets struck one after the other, in their order.
pub open spec fn volley_spec(
    b: Battle,
    bullets: Seq<BulletState>,
    config: GameConfig,
    now: u64,
) -> Battle
    decreases bullets.len(),
{
    if bullets.len() == 0 {
        b
    } else {
        strike_spec(volley_spec(b, bullets.drop_last(), config, now), bullets.last(), config, now)
    }
}

/// Lets one bullet strike the players.
fn strike(
    players: &mut Vec<PlayerState>,
    dead: &mut Vec<DeadPlayer>,
    hits: &mut Vec<u32>,
    used: &mut HashSet<u32>,
    timers: &mut HashMap<u32, u64>,
    bullet: BulletState,
    config: GameConfig,
    draws: &Vec<u64>,
    cursor: &mut usize,
    now: u64,
)
    requires
        config.valid(),
        players_valid(old(players)@, config),
        dead_valid(old(dead)@, config),
        *old(cursor) <= draws.len(),
    ensures
        (Battle {
            players: final(players)@,
            dead: final(dead)@,
            hits: final(hits)@,
            used: final(used)@,
            timers: final(timers)@,
            draws: draws@.skip(*final(cursor) as int),
        }) == strike_spec(
            Battle {
                players: old(players)@,
                dead: old(dead)@,
                hits: old(hits)@,
                used: old(used)@,
                timers: old(timers)@,
                draws: draws@.skip(*old(cursor) as int),
            },
            bullet,
            config,
            now,
        ),
        players_valid(final(players)@, config),
        dead_valid(final(dead)@, config),
        *final(cursor) <= draws.len(),
{
    broadcast use group_hash_axioms;

    let ghost rest = draws@.skip(*cursor as int);
    let ghost dead0 = dead@;
    let ghost hits0 = hits@;
    let ghost used0 = used@;
    let ghost timers0 = timers@;
    let ghost mut victims: Seq<PlayerState> = Seq::empty();
    let until: u64 = deadline(now, SURVIVAL_TIMEOUT);
    let mut survivors: Vec<PlayerState> = Vec::new();
    let mut j: usize = 0;
    assert(players@.take(0) =~= Seq::<PlayerState>::empty());
    assert(dead@ =~= dead0 + bury(victims, config, rest, now));
    assert(hits@ =~= hits0 + Seq::new(victims.len(), |m: int| bullet.player_id));
    assert(advance(rest, 0) =~= rest);
    while j < players.len()
        invariant
            j <= players.len(),
            config.valid(),
            players@ == old(players)@,
            players_valid(players@, config),
            until == deadline_spec(now, SURVIVAL_TIMEOUT),
            survivors@ == players@.take(j as int).filter(missed_by(bullet)),
            victims == players@.take(j as int).filter(hit_by(bullet)),
            players_valid(survivors@, config),
            dead@ == dead0 + bury(victims, config, rest, now),
            dead_valid(dead@, config),
            hits@ == hits0 + Seq::new(victims.len(), |m: int| bullet.player_id),
            used@ == if victims.len() > 0 {
                used0.insert(bullet.id)
            } else {
                used0
            },
            timers@ == reset_timers(timers0, victims, until),
            *cursor <= draws.len(),
            draws@.skip(*cursor as int) == advance(rest, 2 * (victims.len() as int)),
        decreases players.len() - j,
    {
        proof {
            lemma_filter_step(players@, missed_by(bullet), j as int);
            lemma_filter_step(players@, hit_by(bullet), j as int);
        }
        let player: PlayerState = players[j];
        if is_colliding(&player, &bullet) && bullet.player_id != player.id {
            hits.push(bullet.player_id);
            used.insert(bullet.id);
            timers.insert(player.id, until);
            bury_one(
                dead,
                player,
                config,
                draws,
                cursor,
                now,
                Ghost(dead0),
                Ghost(victims),
                Ghost(rest),
            );
            proof {
                assert(victims.push(player).drop_last() =~= victims);
                assert(hits@ =~= hits0 + Seq::new(
                    victims.push(player).len(),
                    |m: int| bullet.player_id,
                ));
                assert(used@ =~= used0.insert(bullet.id));
                victims = victims.push(player);
            }
        } else {
            survivors.push(player);
        }
        j += 1;
    }
    assert(players@.take(players.len() as int) =~= players@);
    *players = survivors;
}

/// Lets the bullets strike the players one after the other, in their order.
pub fn volley(
    players: &mut Vec<PlayerState>,
    dead: &mut Vec<DeadPlayer>,
    hits: &mut Vec<u32>,
    used: &mut HashSet<u32>,
    timers: &mut HashMap<u32, u64>,
    bullets: &Vec<BulletState>,
    config: GameConfig,
    draws: &Vec<u64>,
    cursor: &mut usize,
    now: u64,
)
    requires
        config.valid(),
        players_valid(old(players)@, config),
        dead_valid(old(dead)@, config),
        *old(cursor) <= draws.len(),
    ensures
        (Battle {
            players: final(players)@,
            dead: final(dead)@,
            hits: final(hits)@,
            used: final(used)@,
            timers: final(timers)@,
            draws: draws@.skip(*final(cursor) as int),
        }) == volley_spec(
            Battle {
                players: old(players)@,
                dead: old(dead)@,
                hits: old(hits)@,
                used: old(used)@,
                timers: old(timers)@,
                draws: draws@.skip(*old(cursor) as int),
            },
            bullets@,
            config,
            now,
        ),
        players_valid(final(players)@, config),
        dead_valid(final(dead)@, config),
        *final(cursor) <= draws.len(),
{
    let ghost start = Battle {
        players: players@,
        dead: dead@,
        hits: hits@,
        used: used@,
        timers: timers@,
        draws: draws@.skip(*cursor as int),
    };
    let mut i: usize = 0;
    assert(bullets@.take(0) =~= Seq::<BulletState>::empty());
    while i < bullets.len()
        invariant
            i <= bullets.len(),
            config.valid(),
            players_valid(players@, config),
            dead_valid(dead@, config),
            *cursor <= draws.len(),
            (Battle {
                players: players@,
                dead: dead@,
                hits: hits@,
                used: used@,
                timers: timers@,
                draws: draws@.skip(*cursor as int),
            }) == volley_spec(start, bullets@.take(i as int), config, now),
        decreases bullets.len() - i,
    {
        assert(bullets@.take(i + 1).drop_last() =~= bullets@.take(i as int));
        strike(players, dead, hits, used, timers, bullets[i], config, draws, cursor, now);
        i += 1;
    }
    assert(bullets@.take(bullets.len() as int) =~= bullets@);
}

/// Removes the bullets that hit a player.
pub fn spend_bullets(bullets: &mut Vec<BulletState>, used: &HashSet<u32>)
    requires
        bullets_valid(old(bullets)@),
    ensures
        final(bullets)@ == old(bullets)@.filter(tagged_out::<BulletState>(used@)),
        bullets_valid(final(bullets)@),
{
    let kept: Vec<BulletState> = without(bullets, used);
    proof {
        lemma_filter_all(bullets@, tagged_out::<BulletState>(used@), |b: BulletState| b.valid());
    }
    *bullets = kept;
}

} // verus!

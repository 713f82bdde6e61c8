//! What holds of the game whatever the players do.

use crate::clock::{deadline_spec, DEAD_PUNISH, MAX_CONCURRENT_ITEMS};
use crate::combat::{bury, hit_by, missed_by, strike_spec, Battle};
use crate::game::GameView;
use crate::collision::{clashing_ids, tagged_out};
use crate::models::{BulletState, DeadPlayer, GameCommand, GameConfig, PlayerState};
use crate::motion::{bullets_advanced, due, inside, pending, revived};
use crate::scoring::{bumped, credited, points, rewarded, survival_rewards, Ledger};
use crate::seqs::{lemma_filter_keeps, lemma_filter_member};
use vstd::prelude::*;

verus! {

/// Every living player of a well-formed game lies inside the world: its
/// centre is at least its radius away from each edge.
pub proof fn lemma_players_in_bounds(v: GameView, i: int)
    requires
        v.wf(),
        0 <= i < v.state.players.len(),
    ensures
        v.state.players[i].radius <= v.state.players[i].x <= v.config.bound_x
            - v.state.players[i].radius,
        v.state.players[i].radius <= v.state.players[i].y <= v.config.bound_y
            - v.state.players[i].radius,
{
    assert(v.state.players[i].valid(v.config));
}

/// No more than [`MAX_CONCURRENT_ITEMS`] items lie in a well-formed game.
pub proof fn lemma_item_cap(v: GameView)
    requires
        v.wf(),
    ensures
        v.state.items.len() <= MAX_CONCURRENT_ITEMS,
{
}

/// After a tick every bullet lies inside the world widened by the bullet's
/// radius.
pub proof fn lemma_bullets_inside_after_tick(v: GameView, now: u64, dt: u32, draws: Seq<u64>)
    ensures
        forall|k: int|
            0 <= k < v.tick(now, dt, draws).state.bullets.len() ==> (#[trigger] v.tick(
                now,
                dt,
                draws,
            ).state.bullets[k]).in_bounds_spec(v.config),
{
    let risen = v.revive(now);
    let stocked = risen.spawn_item(now, draws);
    let draws1 = crate::motion::advance(draws, risen.spawn_draws(now));
    let cleared = stocked.moved(dt).cleared();
    let crashed = cleared.crashed(now, draws1);
    let draws2 = crate::motion::advance(draws1, cleared.crash_draws());
    let battle = crashed.battle(now, draws2);
    let after = v.tick(now, dt, draws);
    let flown = bullets_advanced(v.state.bullets, dt);
    let kept = flown.filter(inside(v.config));
    let apart = kept.filter(tagged_out::<BulletState>(clashing_ids(kept)));
    let spent = tagged_out::<BulletState>(battle.used);
    assert(after.state.bullets == apart.filter(spent));
    assert forall|k: int| 0 <= k < after.state.bullets.len() implies (
    #[trigger] after.state.bullets[k]).in_bounds_spec(v.config) by {
        lemma_filter_member(apart, spent, k);
        let j = choose|j: int| 0 <= j < apart.len() && apart[j] == apart.filter(spent)[k];
        lemma_filter_member(kept, tagged_out::<BulletState>(clashing_ids(kept)), j);
        let i = choose|i: int| 0 <= i < kept.len() && kept[i] == apart[j];
        lemma_filter_member(flown, inside(v.config), i);
    }
}

/// A bullet never kills its owner: a living player with the id of the
/// bullet's owner is still alive after the bullet struck, and none of the
/// players that the bullet kills has that id.
pub proof fn lemma_owner_survives(b: Battle, bullet: BulletState, config: GameConfig, now: u64)
    ensures
        forall|i: int|
            0 <= i < b.players.len() && (#[trigger] b.players[i]).id == bullet.player_id
                ==> strike_spec(b, bullet, config, now).players.contains(b.players[i]),
        forall|k: int|
            0 <= k < b.players.filter(hit_by(bullet)).len() ==> (#[trigger] b.players.filter(
                hit_by(bullet),
            )[k]).id != bullet.player_id,
{
    assert forall|i: int|
        0 <= i < b.players.len() && (#[trigger] b.players[i]).id
            == bullet.player_id implies strike_spec(b, bullet, config, now).players.contains(
        b.players[i],
    ) by {
        lemma_filter_keeps(b.players, missed_by(bullet), i);
    }
    assert forall|k: int| 0 <= k < b.players.filter(hit_by(bullet)).len() implies (
    #[trigger] b.players.filter(hit_by(bullet))[k]).id != bullet.player_id by {
        lemma_filter_member(b.players, hit_by(bullet), k);
    }
}

/// One more point never lowers a score.
pub proof fn lemma_bump_raises(board: Map<u32, u32>, id: u32, other: u32)
    ensures
        points(bumped(board, id), other) >= points(board, other),
        board.contains_key(other) ==> bumped(board, id).contains_key(other),
{
}

/// Credit for kills never lowers a score.
pub proof fn lemma_credit_raises(board: Map<u32, u32>, hits: Seq<u32>, id: u32)
    ensures
        points(credited(board, hits), id) >= points(board, id),
        board.contains_key(id) ==> credited(board, hits).contains_key(id),
    decreases hits.len(),
{
    if hits.len() > 0 {
        lemma_credit_raises(board, hits.drop_last(), id);
        lemma_bump_raises(credited(board, hits.drop_last()), hits.last(), id);
    }
}

/// Survival rewards never lower a score.
pub proof fn lemma_reward_raises(
    l: Ledger,
    players: Seq<PlayerState>,
    crowd: bool,
    now: u64,
    id: u32,
)
    ensures
        points(rewarded(l, players, crowd, now).board, id) >= points(l.board, id),
        l.board.contains_key(id) ==> rewarded(l, players, crowd, now).board.contains_key(id),
    decreases players.len(),
{
    if players.len() > 0 {
        lemma_reward_raises(l, players.drop_last(), crowd, now, id);
        let before = rewarded(l, players.drop_last(), crowd, now);
        lemma_bump_raises(before.board, players.last().id, id);
    }
}

/// The scoreboard only grows over a tick: whoever had a score still has
/// one, and no score is lower than it was.
pub proof fn lemma_scores_never_fall(v: GameView, now: u64, dt: u32, draws: Seq<u64>, id: u32)
    ensures
        points(v.tick(now, dt, draws).state.scoreboard, id) >= points(v.state.scoreboard, id),
        v.state.scoreboard.contains_key(id) ==> v.tick(
            now,
            dt,
            draws,
        ).state.scoreboard.contains_key(id),
{
    let risen = v.revive(now);
    let stocked = risen.spawn_item(now, draws);
    let draws1 = crate::motion::advance(draws, risen.spawn_draws(now));
    let cleared = stocked.moved(dt).cleared();
    let crashed = cleared.crashed(now, draws1);
    let draws2 = crate::motion::advance(draws1, cleared.crash_draws());
    assert(crashed.state.scoreboard == v.state.scoreboard);
    let battle = crashed.battle(now, draws2);
    let picked = crate::pickup::harvest(battle.players, crashed.state.items, crashed.config);
    let credit = credited(crashed.state.scoreboard, battle.hits);
    lemma_credit_raises(crashed.state.scoreboard, battle.hits, id);
    lemma_reward_raises(
        Ledger { board: credit, timers: battle.timers },
        picked.players,
        picked.players.len() > 1,
        now,
        id,
    );
}

/// Where the living are no crowd, looking at them for survival rewards
/// leaves the scoreboard as it is.
pub proof fn lemma_no_reward_without_crowd(l: Ledger, players: Seq<PlayerState>, now: u64)
    ensures
        rewarded(l, players, false, now).board == l.board,
        players.len() <= 1 ==> survival_rewards(l, players, now).board == l.board,
    decreases players.len(),
{
    if players.len() > 0 {
        lemma_no_reward_without_crowd(l, players.drop_last(), now);
    }
}

/// Whoever dies at `now` waits for [`DEAD_PUNISH`] from then.
pub proof fn lemma_death_sets_respawn(
    victims: Seq<PlayerState>,
    config: GameConfig,
    draws: Seq<u64>,
    now: u64,
    k: int,
)
    requires
        0 <= k < victims.len(),
    ensures
        bury(victims, config, draws, now).len() == victims.len(),
        bury(victims, config, draws, now)[k].respawn == deadline_spec(now, DEAD_PUNISH),
        bury(victims, config, draws, now)[k].player.id == victims[k].id,
{
}

/// The player `p` was dead with a respawn time that has come at `now`.
pub open spec fn was_due(dead: Seq<DeadPlayer>, now: u64, p: PlayerState) -> bool {
    exists|j: int| 0 <= j < dead.len() && (#[trigger] dead[j]).player == p && dead[j].respawn <= now
}

/// No one comes back before its time: every player that the revival at `now`
/// adds to the living was dead with a respawn time that has come, and every
/// dead player whose time has not come is still dead afterwards.
pub proof fn lemma_revival_waits(v: GameView, now: u64)
    ensures
        v.revive(now).state.players == v.state.players + revived(v.state.dead, now),
        forall|k: int|
            0 <= k < revived(v.state.dead, now).len() ==> was_due(
                v.state.dead,
                now,
                #[trigger] revived(v.state.dead, now)[k],
            ),
        forall|j: int|
            0 <= j < v.state.dead.len() && (#[trigger] v.state.dead[j]).respawn > now ==> v.revive(
                now,
            ).state.dead.contains(v.state.dead[j]),
{
    let back = v.state.dead.filter(due(now));
    assert forall|k: int| 0 <= k < revived(v.state.dead, now).len() implies was_due(
        v.state.dead,
        now,
        #[trigger] revived(v.state.dead, now)[k],
    ) by {
        lemma_filter_member(v.state.dead, due(now), k);
        let j = choose|j: int| 0 <= j < v.state.dead.len() && v.state.dead[j] == back[k];
        assert(v.state.dead[j].player == revived(v.state.dead, now)[k]);
    }
    assert forall|j: int|
        0 <= j < v.state.dead.len() && (#[trigger] v.state.dead[j]).respawn > now implies v.revive(
        now,
    ).state.dead.contains(v.state.dead[j]) by {
        lemma_filter_keeps(v.state.dead, pending(now), j);
    }
}

/// A shot of a player that has as many bullets in flight as it may have
/// changes nothing: no bullet is added and no bullet id is used up.
pub proof fn lemma_fire_at_the_limit(v: GameView, player_id: u32, i: int)
    requires
        crate::game::find_player(v.state.players, player_id) == Some(i),
        v.bullets_of(player_id) >= v.state.players[i].bullet_limit,
    ensures
        v.handle_cmd(player_id, GameCommand::Fire) == v,
{
    assert(crate::game::is_first(v.state.players, player_id, i));
}

/// A command of a player that is not alive changes nothing.
pub proof fn lemma_command_of_the_absent(v: GameView, player_id: u32, cmd: GameCommand)
    requires
        forall|i: int|
            0 <= i < v.state.players.len() ==> (#[trigger] v.state.players[i]).id != player_id,
    ensures
        v.handle_cmd(player_id, cmd) == v,
{
}

/// What can happen to a game, with the time and the random numbers it
/// happens with.
pub enum Step {
    AddPlayer { player_id: u32, now: u64, draw_x: u64, draw_y: u64 },
    PlayerLeft { player_id: u32 },
    Command { player_id: u32, cmd: GameCommand },
    Tick { now: u64, dt: u32, draws: Seq<u64> },
    Reset { now: u64, draws: Seq<u64> },
}

/// The game after one step.
pub open spec fn step(v: GameView, s: Step) -> GameView {
    match s {
        Step::AddPlayer { player_id, now, draw_x, draw_y } => v.add_player(
            player_id,
            now,
            draw_x,
            draw_y,
        ),
        Step::PlayerLeft { player_id } => v.player_left(player_id),
        Step::Command { player_id, cmd } => v.handle_cmd(player_id, cmd),
        Step::Tick { now, dt, draws } => v.tick(now, dt, draws),
        Step::Reset { now, draws } => v.reset(now, draws),
    }
}

/// The game after the steps, one after the other.
pub open spec fn run(v: GameView, steps: Seq<Step>) -> GameView
    decreases steps.len(),
{
    if steps.len() == 0 {
        v
    } else {
        step(run(v, steps.drop_last()), steps.last())
    }
}

/// Two games that start from the same settings at the same time and go
/// through the same steps, with the same times and the same random numbers,
/// are in the same state after every step.
pub proof fn lemma_deterministic(
    config: GameConfig,
    start: u64,
    first: Seq<Step>,
    second: Seq<Step>,
    k: int,
)
    requires
        first == second,
        0 <= k <= first.len(),
    ensures
        run(GameView::initial(config, start), first.take(k)) == run(
            GameView::initial(config, start),
            second.take(k),
        ),
{
}

/// Enrolling players leaves bullets, items, scores, the dead and the
/// counters alone, and adds the players in their order.
pub proof fn lemma_enrol_adds_only(v: GameView, ids: Seq<u32>, now: u64, draws: Seq<u64>)
    ensures
        v.enrol(ids, now, draws).config == v.config,
        v.enrol(ids, now, draws).state.bounds == v.state.bounds,
        v.enrol(ids, now, draws).state.bullets == v.state.bullets,
        v.enrol(ids, now, draws).state.items == v.state.items,
        v.enrol(ids, now, draws).state.dead == v.state.dead,
        v.enrol(ids, now, draws).state.scoreboard == v.state.scoreboard,
        v.enrol(ids, now, draws).bullet_id_counter == v.bullet_id_counter,
        v.enrol(ids, now, draws).item_id_counter == v.item_id_counter,
        v.enrol(ids, now, draws).last_item_spawn_at == v.last_item_spawn_at,
        v.enrol(ids, now, draws).state.players.len() == v.state.players.len() + ids.len(),
        forall|k: int|
            0 <= k < v.state.players.len() ==> #[trigger] v.enrol(ids, now, draws).state.players[k]
                == v.state.players[k],
        forall|m: int|
            0 <= m < ids.len() ==> (#[trigger] v.enrol(ids, now, draws).state.players[
                v.state.players.len() + m]).id == ids[m],
    decreases ids.len(),
{
    if ids.len() > 0 {
        lemma_enrol_adds_only(v, ids.drop_last(), now, draws);
    }
}

/// A reset leaves a game without scores, bullets, items or dead players, in
/// which the players of before are alive in their order.
pub proof fn lemma_reset_clears(v: GameView, now: u64, draws: Seq<u64>)
    ensures
        v.reset(now, draws).state.scoreboard == Map::<u32, u32>::empty(),
        v.reset(now, draws).state.bullets == Seq::<BulletState>::empty(),
        v.reset(now, draws).state.items == Seq::<crate::models::Item>::empty(),
        v.reset(now, draws).state.dead == Seq::<DeadPlayer>::empty(),
        v.reset(now, draws).bullet_id_counter == 0,
        v.reset(now, draws).item_id_counter == 0,
        v.reset(now, draws).roster() == v.roster(),
{
    let start = GameView::initial(v.config, now);
    lemma_enrol_adds_only(start, v.roster(), now, draws);
    let after = v.reset(now, draws);
    assert(start.state.players.len() == 0);
    assert forall|m: int| 0 <= m < v.roster().len() implies after.state.players[m].id
        == v.roster()[m] by {
        assert(after.state.players[start.state.players.len() + m].id == v.roster()[m]);
    }
    assert(after.state.players.map_values(|p: PlayerState| p.id) =~= v.roster());
    assert(after.state.dead.map_values(|d: DeadPlayer| d.player.id) =~= Seq::<u32>::empty());
    assert(after.roster() =~= v.roster());
}

/// Resetting a game of valid settings twice at the same time with the same
/// random numbers is resetting it once: the state that a reset leads to is
/// fixed by the settings and the players alone.
pub proof fn lemma_reset_idempotent(v: GameView, now: u64, draws: Seq<u64>)
    requires
        v.config.valid(),
    ensures
        v.reset(now, draws).reset(now, draws) == v.reset(now, draws),
{
    lemma_reset_clears(v, now, draws);
    lemma_enrol_adds_only(GameView::initial(v.config, now), v.roster(), now, draws);
    assert(v.config.normalized() == v.config);
}

} // verus!

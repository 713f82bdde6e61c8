//! The bound on the bullets that a player has in flight, and why a tick
//! keeps it.

use crate::collision::{clashing_ids, tagged_in, tagged_out};
use crate::combat::{bury, hit_by, missed_by, strike_spec, volley_spec, Battle};
use crate::game::{find_player, is_first, owned_by, GameView};
use crate::models::{BulletState, DeadPlayer, GameCommand, GameConfig, Item, PlayerState};
use crate::motion::{bullets_advanced, due, inside, pending};
use crate::pickup::{harvest, offered};
use crate::seqs::{lemma_filter_filter_len, lemma_filter_member};
use vstd::prelude::*;

verus! {

/// The players that the dead stand for.
pub open spec fn corpses(dead: Seq<DeadPlayer>) -> Seq<PlayerState> {
    dead.map_values(|d: DeadPlayer| d.player)
}

/// Everyone in the game: the living and then the dead.
pub open spec fn population(players: Seq<PlayerState>, dead: Seq<DeadPlayer>) -> Seq<PlayerState> {
    players + corpses(dead)
}

/// The number of bullets that belong to the player `id`.
pub open spec fn owned(bullets: Seq<BulletState>, id: u32) -> nat {
    bullets.filter(owned_by(id)).len()
}

/// No one, living or dead, has more bullets in flight than its limit.
pub open spec fn bullet_cap(v: GameView) -> bool {
    forall|i: int|
        0 <= i < population(v.state.players, v.state.dead).len() ==> owned(
            v.state.bullets,
            (#[trigger] population(v.state.players, v.state.dead)[i]).id,
        ) <= population(v.state.players, v.state.dead)[i].bullet_limit
}

/// No two in the game, living or dead, share an id.
pub open spec fn distinct_ids(v: GameView) -> bool {
    forall|i: int, j: int|
        0 <= i < j < population(v.state.players, v.state.dead).len() ==> (#[trigger] population(
            v.state.players,
            v.state.dead,
        )[i]).id != (#[trigger] population(v.state.players, v.state.dead)[j]).id
}

/// Someone among `crowd` has the id of `p` and a bullet limit no higher
/// than that of `p`.
pub open spec fn has_forebear(crowd: Seq<PlayerState>, p: PlayerState) -> bool {
    exists|j: int|
        0 <= j < crowd.len() && (#[trigger] crowd[j]).id == p.id && crowd[j].bullet_limit
            <= p.bullet_limit
}

/// Everyone among `later` has a forebear among `earlier`.
pub open spec fn descends(later: Seq<PlayerState>, earlier: Seq<PlayerState>) -> bool {
    forall|k: int| 0 <= k < later.len() ==> has_forebear(earlier, #[trigger] later[k])
}

/// No player has more bullets among `later` than among `earlier`.
pub open spec fn thinned(later: Seq<BulletState>, earlier: Seq<BulletState>) -> bool {
    forall|id: u32| #[trigger] owned(later, id) <= owned(earlier, id)
}

/// Descent carries over.
pub proof fn lemma_descends_trans(a: Seq<PlayerState>, b: Seq<PlayerState>, c: Seq<PlayerState>)
    requires
        descends(a, b),
        descends(b, c),
    ensures
        descends(a, c),
{
    assert forall|k: int| 0 <= k < a.len() implies has_forebear(c, #[trigger] a[k]) by {
        assert(has_forebear(b, a[k]));
        let j = choose|j: int|
            0 <= j < b.len() && (#[trigger] b[j]).id == a[k].id && b[j].bullet_limit
                <= a[k].bullet_limit;
        assert(has_forebear(c, b[j]));
        let i = choose|i: int|
            0 <= i < c.len() && (#[trigger] c[i]).id == b[j].id && c[i].bullet_limit
                <= b[j].bullet_limit;
        assert(c[i].id == a[k].id && c[i].bullet_limit <= a[k].bullet_limit);
    }
}

/// Whoever is found among the living or among the dead is found in the
/// population.
pub proof fn lemma_population_member(players: Seq<PlayerState>, dead: Seq<DeadPlayer>)
    ensures
        forall|i: int|
            0 <= i < players.len() ==> #[trigger] population(players, dead)[i] == players[i],
        forall|j: int|
            0 <= j < dead.len() ==> #[trigger] population(players, dead)[players.len() + j]
                == dead[j].player,
        population(players, dead).len() == players.len() + dead.len(),
{
}

/// A population all of whose living and dead have forebears descends.
pub proof fn lemma_descends_by_parts(
    players: Seq<PlayerState>,
    dead: Seq<DeadPlayer>,
    earlier: Seq<PlayerState>,
)
    requires
        forall|i: int| 0 <= i < players.len() ==> has_forebear(earlier, #[trigger] players[i]),
        forall|j: int| 0 <= j < dead.len() ==> has_forebear(earlier, (#[trigger] dead[j]).player),
    ensures
        descends(population(players, dead), earlier),
{
    let pop = population(players, dead);
    assert forall|k: int| 0 <= k < pop.len() implies has_forebear(earlier, #[trigger] pop[k]) by {
        if k < players.len() {
            assert(pop[k] == players[k]);
        } else {
            assert(pop[k] == dead[k - players.len()].player);
        }
    }
}

/// Whoever is in the population is its own forebear there.
pub proof fn lemma_own_forebear(
    players: Seq<PlayerState>,
    dead: Seq<DeadPlayer>,
)
    ensures
        forall|i: int|
            0 <= i < players.len() ==> has_forebear(
                population(players, dead),
                #[trigger] players[i],
            ),
        forall|j: int|
            0 <= j < dead.len() ==> has_forebear(
                population(players, dead),
                (#[trigger] dead[j]).player,
            ),
{
    let pop = population(players, dead);
    assert forall|i: int| 0 <= i < players.len() implies has_forebear(
        pop,
        #[trigger] players[i],
    ) by {
        assert(pop[i] == players[i]);
    }
    assert forall|j: int| 0 <= j < dead.len() implies has_forebear(
        pop,
        (#[trigger] dead[j]).player,
    ) by {
        assert(pop[players.len() + j] == dead[j].player);
    }
}

/// Those that die become dead players with the same id and bullet limit.
pub proof fn lemma_bury_keeps(
    victims: Seq<PlayerState>,
    config: GameConfig,
    draws: Seq<u64>,
    now: u64,
    earlier: Seq<PlayerState>,
)
    requires
        forall|k: int| 0 <= k < victims.len() ==> has_forebear(earlier, #[trigger] victims[k]),
    ensures
        forall|k: int|
            0 <= k < bury(victims, config, draws, now).len() ==> has_forebear(
                earlier,
                (#[trigger] bury(victims, config, draws, now)[k]).player,
            ),
{
    let buried = bury(victims, config, draws, now);
    assert forall|k: int| 0 <= k < buried.len() implies has_forebear(
        earlier,
        (#[trigger] buried[k]).player,
    ) by {
        assert(has_forebear(earlier, victims[k]));
        let j = choose|j: int|
            0 <= j < earlier.len() && (#[trigger] earlier[j]).id == victims[k].id
                && earlier[j].bullet_limit <= victims[k].bullet_limit;
        assert(earlier[j].id == buried[k].player.id);
    }
}

/// Whoever a filter keeps of players with forebears has a forebear.
pub proof fn lemma_filter_keeps_forebears(
    players: Seq<PlayerState>,
    pred: spec_fn(PlayerState) -> bool,
    earlier: Seq<PlayerState>,
)
    requires
        forall|k: int| 0 <= k < players.len() ==> has_forebear(earlier, #[trigger] players[k]),
    ensures
        forall|k: int|
            0 <= k < players.filter(pred).len() ==> has_forebear(
                earlier,
                #[trigger] players.filter(pred)[k],
            ),
{
    assert forall|k: int| 0 <= k < players.filter(pred).len() implies has_forebear(
        earlier,
        #[trigger] players.filter(pred)[k],
    ) by {
        lemma_filter_member(players, pred, k);
        let i = choose|i: int| 0 <= i < players.len() && players[i] == players.filter(pred)[k];
        assert(has_forebear(earlier, players[i]));
    }
}

/// The revival of the dead brings no one new into the game.
pub proof fn lemma_revive_descends(v: GameView, now: u64)
    ensures
        descends(
            population(v.revive(now).state.players, v.revive(now).state.dead),
            population(v.state.players, v.state.dead),
        ),
{
    let earlier = population(v.state.players, v.state.dead);
    let after = v.revive(now);
    lemma_own_forebear(v.state.players, v.state.dead);
    assert forall|i: int| 0 <= i < after.state.players.len() implies has_forebear(
        earlier,
        #[trigger] after.state.players[i],
    ) by {
        if i >= v.state.players.len() {
            let k = i - v.state.players.len();
            let back = v.state.dead.filter(due(now));
            lemma_filter_member(v.state.dead, due(now), k);
            let j = choose|j: int| 0 <= j < v.state.dead.len() && v.state.dead[j] == back[k];
            assert(after.state.players[i] == v.state.dead[j].player);
        } else {
            assert(after.state.players[i] == v.state.players[i]);
        }
    }
    assert forall|j: int| 0 <= j < after.state.dead.len() implies has_forebear(
        earlier,
        (#[trigger] after.state.dead[j]).player,
    ) by {
        lemma_filter_member(v.state.dead, pending(now), j);
        let i = choose|i: int|
            0 <= i < v.state.dead.len() && v.state.dead[i] == after.state.dead[j];
        assert(has_forebear(earlier, v.state.dead[i].player));
    }
    lemma_descends_by_parts(after.state.players, after.state.dead, earlier);
}

/// One bullet's strike brings no one new into the game.
pub proof fn lemma_strike_descends(
    b: Battle,
    bullet: BulletState,
    config: GameConfig,
    now: u64,
    earlier: Seq<PlayerState>,
)
    requires
        descends(population(b.players, b.dead), earlier),
    ensures
        descends(
            population(
                strike_spec(b, bullet, config, now).players,
                strike_spec(b, bullet, config, now).dead,
            ),
            earlier,
        ),
{
    let after = strike_spec(b, bullet, config, now);
    let pop = population(b.players, b.dead);
    assert forall|k: int| 0 <= k < b.players.len() implies has_forebear(
        earlier,
        #[trigger] b.players[k],
    ) by {
        assert(pop[k] == b.players[k]);
    }
    assert forall|j: int| 0 <= j < b.dead.len() implies has_forebear(
        earlier,
        (#[trigger] b.dead[j]).player,
    ) by {
        assert(pop[b.players.len() + j] == b.dead[j].player);
    }
    lemma_filter_keeps_forebears(b.players, missed_by(bullet), earlier);
    lemma_filter_keeps_forebears(b.players, hit_by(bullet), earlier);
    let victims = b.players.filter(hit_by(bullet));
    lemma_bury_keeps(victims, config, b.draws, now, earlier);
    let buried = bury(victims, config, b.draws, now);
    assert forall|j: int| 0 <= j < after.dead.len() implies has_forebear(
        earlier,
        (#[trigger] after.dead[j]).player,
    ) by {
        if j >= b.dead.len() {
            assert(after.dead[j] == buried[j - b.dead.len()]);
        } else {
            assert(after.dead[j] == b.dead[j]);
        }
    }
    lemma_descends_by_parts(after.players, after.dead, earlier);
}

/// The strikes of all bullets bring no one new into the game.
pub proof fn lemma_volley_descends(
    b: Battle,
    bullets: Seq<BulletState>,
    config: GameConfig,
    now: u64,
    earlier: Seq<PlayerState>,
)
    requires
        descends(population(b.players, b.dead), earlier),
    ensures
        descends(
            population(
                volley_spec(b, bullets, config, now).players,
                volley_spec(b, bullets, config, now).dead,
            ),
            earlier,
        ),
    decreases bullets.len(),
{
    if bullets.len() > 0 {
        lemma_volley_descends(b, bullets.drop_last(), config, now, earlier);
        lemma_strike_descends(
            volley_spec(b, bullets.drop_last(), config, now),
            bullets.last(),
            config,
            now,
            earlier,
        );
    }
}

/// Pickups keep every player's id and never lower a bullet limit.
pub proof fn lemma_harvest_keeps(
    players: Seq<PlayerState>,
    items: Seq<Item>,
    config: GameConfig,
    earlier: Seq<PlayerState>,
)
    requires
        forall|k: int| 0 <= k < players.len() ==> has_forebear(earlier, #[trigger] players[k]),
    ensures
        harvest(players, items, config).players.len() == players.len(),
        forall|k: int|
            0 <= k < players.len() ==> has_forebear(
                earlier,
                #[trigger] harvest(players, items, config).players[k],
            ),
    decreases items.len(),
{
    if items.len() > 0 {
        lemma_harvest_keeps(players, items.drop_last(), config, earlier);
        let before = harvest(players, items.drop_last(), config).players;
        let after = harvest(players, items, config).players;
        assert forall|k: int| 0 <= k < players.len() implies has_forebear(
            earlier,
            #[trigger] after[k],
        ) by {
            assert(has_forebear(earlier, before[k]));
            let j = choose|j: int|
                0 <= j < earlier.len() && (#[trigger] earlier[j]).id == before[k].id
                    && earlier[j].bullet_limit <= before[k].bullet_limit;
            assert(after[k] == offered(before[k], items.last(), config));
            assert(earlier[j].id == after[k].id && earlier[j].bullet_limit
                <= after[k].bullet_limit);
        }
    }
}

/// Bullets that moved belong to whom they belonged.
pub proof fn lemma_advanced_owned(bullets: Seq<BulletState>, dt: u32, id: u32)
    ensures
        owned(bullets_advanced(bullets, dt), id) == owned(bullets, id),
    decreases bullets.len(),
{
    reveal(Seq::filter);
    if bullets.len() > 0 {
        lemma_advanced_owned(bullets.drop_last(), dt, id);
        assert(bullets_advanced(bullets, dt).drop_last() =~= bullets_advanced(
            bullets.drop_last(),
            dt,
        ));
    }
}

/// A tick brings no one new into the game: everyone in it afterwards, living
/// or dead, was in it before with the same id and a bullet limit that was
/// no higher.
pub proof fn lemma_tick_descends(v: GameView, now: u64, dt: u32, draws: Seq<u64>)
    ensures
        descends(
            population(
                v.tick(now, dt, draws).state.players,
                v.tick(now, dt, draws).state.dead,
            ),
            population(v.state.players, v.state.dead),
        ),
{
    let earlier = population(v.state.players, v.state.dead);
    let risen = v.revive(now);
    lemma_revive_descends(v, now);
    let stocked = risen.spawn_item(now, draws);
    let draws1 = crate::motion::advance(draws, risen.spawn_draws(now));
    let moved = stocked.moved(dt);
    let cleared = moved.cleared();
    let risen_pop = population(risen.state.players, risen.state.dead);
    // Moving keeps ids and limits.
    assert forall|k: int| 0 <= k < cleared.state.players.len() implies has_forebear(
        earlier,
        #[trigger] cleared.state.players[k],
    ) by {
        assert(risen_pop[k] == risen.state.players[k]);
        assert(has_forebear(earlier, risen_pop[k]));
        let j = choose|j: int|
            0 <= j < earlier.len() && (#[trigger] earlier[j]).id == risen_pop[k].id
                && earlier[j].bullet_limit <= risen_pop[k].bullet_limit;
        assert(cleared.state.players[k] == risen.state.players[k].advanced(risen.config, dt));
        assert(earlier[j].id == cleared.state.players[k].id);
    }
    assert forall|j: int| 0 <= j < cleared.state.dead.len() implies has_forebear(
        earlier,
        (#[trigger] cleared.state.dead[j]).player,
    ) by {
        assert(risen_pop[risen.state.players.len() + j] == risen.state.dead[j].player);
        assert(has_forebear(earlier, risen_pop[risen.state.players.len() + j]));
    }
    // Crashing.
    let crashed = cleared.crashed(now, draws1);
    let doomed = clashing_ids(cleared.state.players);
    lemma_filter_keeps_forebears(
        cleared.state.players,
        tagged_out::<PlayerState>(doomed),
        earlier,
    );
    lemma_filter_keeps_forebears(cleared.state.players, tagged_in::<PlayerState>(doomed), earlier);
    let victims = cleared.state.players.filter(tagged_in::<PlayerState>(doomed));
    lemma_bury_keeps(victims, cleared.config, draws1, now, earlier);
    let buried = bury(victims, cleared.config, draws1, now);
    assert forall|j: int| 0 <= j < crashed.state.dead.len() implies has_forebear(
        earlier,
        (#[trigger] crashed.state.dead[j]).player,
    ) by {
        if j >= cleared.state.dead.len() {
            assert(crashed.state.dead[j] == buried[j - cleared.state.dead.len()]);
        } else {
            assert(crashed.state.dead[j] == cleared.state.dead[j]);
        }
    }
    lemma_descends_by_parts(crashed.state.players, crashed.state.dead, earlier);
    // Shooting.
    let draws2 = crate::motion::advance(draws1, cleared.crash_draws());
    let start = Battle {
        players: crashed.state.players,
        dead: crashed.state.dead,
        hits: Seq::empty(),
        used: Set::empty(),
        timers: crashed.survival_times,
        draws: draws2,
    };
    lemma_volley_descends(start, crashed.state.bullets, crashed.config, now, earlier);
    let battle = crashed.battle(now, draws2);
    let battle_pop = population(battle.players, battle.dead);
    assert forall|k: int| 0 <= k < battle.players.len() implies has_forebear(
        earlier,
        #[trigger] battle.players[k],
    ) by {
        assert(battle_pop[k] == battle.players[k]);
    }
    // Pickups.
    lemma_harvest_keeps(battle.players, crashed.state.items, crashed.config, earlier);
    let after = v.tick(now, dt, draws);
    assert forall|j: int| 0 <= j < after.state.dead.len() implies has_forebear(
        earlier,
        (#[trigger] after.state.dead[j]).player,
    ) by {
        assert(battle_pop[battle.players.len() + j] == battle.dead[j].player);
        assert(has_forebear(earlier, battle_pop[battle.players.len() + j]));
    }
    lemma_descends_by_parts(after.state.players, after.state.dead, earlier);
}

/// A tick adds no bullet: no player has more bullets in flight after it
/// than before.
pub proof fn lemma_tick_thins(v: GameView, now: u64, dt: u32, draws: Seq<u64>)
    ensures
        thinned(v.tick(now, dt, draws).state.bullets, v.state.bullets),
{
    let risen = v.revive(now);
    let stocked = risen.spawn_item(now, draws);
    let draws1 = crate::motion::advance(draws, risen.spawn_draws(now));
    let moved = stocked.moved(dt);
    let cleared = moved.cleared();
    let crashed = cleared.crashed(now, draws1);
    let draws2 = crate::motion::advance(draws1, cleared.crash_draws());
    let battle = crashed.battle(now, draws2);
    let after = v.tick(now, dt, draws);
    let flown = bullets_advanced(v.state.bullets, dt);
    let kept = flown.filter(inside(stocked.config));
    let apart = kept.filter(tagged_out::<BulletState>(clashing_ids(kept)));
    assert(moved.state.bullets == flown);
    assert(cleared.state.bullets == apart);
    assert(after.state.bullets == apart.filter(tagged_out::<BulletState>(battle.used)));
    assert forall|id: u32| #[trigger]
        owned(after.state.bullets, id) <= owned(v.state.bullets, id) by {
        lemma_advanced_owned(v.state.bullets, dt, id);
        lemma_filter_filter_len(flown, inside(stocked.config), owned_by(id));
        lemma_filter_filter_len(kept, tagged_out::<BulletState>(clashing_ids(kept)), owned_by(id));
        lemma_filter_filter_len(apart, tagged_out::<BulletState>(battle.used), owned_by(id));
    }
}

/// After a tick no player has more bullets in flight than its limit, if
/// that held of everyone, living or dead, before the tick.
pub proof fn lemma_tick_keeps_bullet_cap(v: GameView, now: u64, dt: u32, draws: Seq<u64>)
    requires
        bullet_cap(v),
    ensures
        bullet_cap(v.tick(now, dt, draws)),
{
    let after = v.tick(now, dt, draws);
    let earlier = population(v.state.players, v.state.dead);
    let later = population(after.state.players, after.state.dead);
    lemma_tick_descends(v, now, dt, draws);
    lemma_tick_thins(v, now, dt, draws);
    assert forall|i: int| 0 <= i < later.len() implies owned(
        after.state.bullets,
        (#[trigger] later[i]).id,
    ) <= later[i].bullet_limit by {
        assert(has_forebear(earlier, later[i]));
        let j = choose|j: int|
            0 <= j < earlier.len() && (#[trigger] earlier[j]).id == later[i].id
                && earlier[j].bullet_limit <= later[i].bullet_limit;
        assert(owned(v.state.bullets, earlier[j].id) <= earlier[j].bullet_limit);
        assert(owned(after.state.bullets, later[i].id) <= owned(v.state.bullets, later[i].id));
    }
}

/// A game without bullets keeps the bound.
pub proof fn lemma_no_bullets_cap(v: GameView)
    requires
        v.state.bullets.len() == 0,
    ensures
        bullet_cap(v),
{
    assert forall|id: u32| owned(v.state.bullets, id) == 0 by {
        v.state.bullets.lemma_filter_len(owned_by(id));
    }
}

/// A player that joins keeps the bound if no more bullets with its id are
/// in flight than a fresh player may have.
pub proof fn lemma_add_player_keeps_bullet_cap(
    v: GameView,
    player_id: u32,
    now: u64,
    draw_x: u64,
    draw_y: u64,
)
    requires
        bullet_cap(v),
        owned(v.state.bullets, player_id) <= crate::models::BULLET_LIMIT,
    ensures
        bullet_cap(v.add_player(player_id, now, draw_x, draw_y)),
{
    let after = v.add_player(player_id, now, draw_x, draw_y);
    let earlier = population(v.state.players, v.state.dead);
    let later = population(after.state.players, after.state.dead);
    assert forall|i: int| 0 <= i < later.len() implies owned(
        after.state.bullets,
        (#[trigger] later[i]).id,
    ) <= later[i].bullet_limit by {
        if i < v.state.players.len() {
            assert(later[i] == earlier[i]);
        } else if i == v.state.players.len() {
            assert(later[i].id == player_id);
        } else {
            assert(later[i] == earlier[i - 1]);
        }
    }
}

/// A player that leaves keeps the bound.
pub proof fn lemma_player_left_keeps_bullet_cap(v: GameView, player_id: u32)
    requires
        bullet_cap(v),
    ensures
        bullet_cap(v.player_left(player_id)),
{
    let after = v.player_left(player_id);
    let earlier = population(v.state.players, v.state.dead);
    lemma_own_forebear(v.state.players, v.state.dead);
    lemma_filter_keeps_forebears(v.state.players, crate::game::other_than(player_id), earlier);
    assert forall|j: int| 0 <= j < after.state.dead.len() implies has_forebear(
        earlier,
        (#[trigger] after.state.dead[j]).player,
    ) by {
        lemma_filter_member(v.state.dead, crate::game::corpse_other_than(player_id), j);
        let i = choose|i: int|
            0 <= i < v.state.dead.len() && v.state.dead[i] == after.state.dead[j];
        assert(has_forebear(earlier, v.state.dead[i].player));
    }
    lemma_descends_by_parts(after.state.players, after.state.dead, earlier);
    let later = population(after.state.players, after.state.dead);
    assert forall|i: int| 0 <= i < later.len() implies owned(
        after.state.bullets,
        (#[trigger] later[i]).id,
    ) <= later[i].bullet_limit by {
        assert(has_forebear(earlier, later[i]));
        let j = choose|j: int|
            0 <= j < earlier.len() && (#[trigger] earlier[j]).id == later[i].id
                && earlier[j].bullet_limit <= later[i].bullet_limit;
        assert(owned(v.state.bullets, earlier[j].id) <= earlier[j].bullet_limit);
    }
}

/// A command keeps the bound where no two in the game share an id.
pub proof fn lemma_command_keeps_bullet_cap(v: GameView, player_id: u32, cmd: GameCommand)
    requires
        bullet_cap(v),
        distinct_ids(v),
    ensures
        bullet_cap(v.handle_cmd(player_id, cmd)),
        distinct_ids(v.handle_cmd(player_id, cmd)),
{
    reveal(Seq::filter);
    let after = v.handle_cmd(player_id, cmd);
    let earlier = population(v.state.players, v.state.dead);
    let later = population(after.state.players, after.state.dead);
    match find_player(v.state.players, player_id) {
        None => {},
        Some(i) => {
            let player = v.state.players[i];
            assert(is_first(v.state.players, player_id, i));
            assert(earlier[i] == player);
            assert(later.len() == earlier.len());
            assert forall|k: int| 0 <= k < later.len() implies (#[trigger] later[k]).id
                == earlier[k].id && later[k].bullet_limit == earlier[k].bullet_limit by {
                if k < v.state.players.len() {
                    assert(earlier[k] == v.state.players[k]);
                    assert(later[k] == after.state.players[k]);
                } else {
                    assert(earlier[k] == v.state.dead[k - v.state.players.len()].player);
                    assert(later[k] == after.state.dead[k - v.state.players.len()].player);
                }
            }
            assert forall|k: int| 0 <= k < later.len() implies owned(
                after.state.bullets,
                (#[trigger] later[k]).id,
            ) <= later[k].bullet_limit by {
                assert(owned(v.state.bullets, earlier[k].id) <= earlier[k].bullet_limit);
                if after.state.bullets != v.state.bullets {
                    let bullet = player.bullet_spec(v.bullet_id_counter);
                    assert(after.state.bullets == v.state.bullets.push(bullet));
                    assert(after.state.bullets.drop_last() =~= v.state.bullets);
                    if later[k].id == player.id {
                        if k != i {
                            if k < i {
                                assert(earlier[k].id != earlier[i].id);
                            } else {
                                assert(earlier[i].id != earlier[k].id);
                            }
                        }
                    }
                }
            }
            assert forall|a: int, b: int| 0 <= a < b < later.len() implies (#[trigger] later[a]).id
                != (#[trigger] later[b]).id by {
                assert(earlier[a].id != earlier[b].id);
            }
        },
    }
}

} // verus!

//! How many players a game holds, and why a room never holds more than it
//! admits.

use crate::cap::population;
use crate::collision::{clashing_ids, tagged_in, tagged_out};
use crate::combat::{hit_by, missed_by, strike_spec, volley_spec, Battle};
use crate::game::{corpse_other_than, other_than, GameView};
use crate::models::{BulletState, GameCommand, GameConfig, Item, PlayerState};
use crate::motion::{due, pending};
use crate::pickup::harvest;
use vstd::prelude::*;

verus! {

/// The number of players in the game, living or dead.
pub open spec fn headcount(v: GameView) -> nat {
    population(v.state.players, v.state.dead).len()
}

/// Two tests that part a sequence part its length.
pub proof fn lemma_filter_parts<A>(s: Seq<A>, one: spec_fn(A) -> bool, other: spec_fn(A) -> bool)
    requires
        forall|i: int| 0 <= i < s.len() ==> one(#[trigger] s[i]) != other(s[i]),
    ensures
        s.filter(one).len() + s.filter(other).len() == s.len(),
    decreases s.len(),
{
    reveal(Seq::filter);
    if s.len() > 0 {
        let rest = s.drop_last();
        assert forall|i: int| 0 <= i < rest.len() implies one(#[trigger] rest[i]) != other(
            rest[i],
        ) by {
            assert(rest[i] == s[i]);
        }
        lemma_filter_parts(rest, one, other);
        assert(one(s[s.len() - 1]) != other(s[s.len() - 1]));
    }
}

/// A filter that drops an element keeps fewer elements than there are.
pub proof fn lemma_filter_drops<A>(s: Seq<A>, pred: spec_fn(A) -> bool, i: int)
    requires
        0 <= i < s.len(),
        !pred(s[i]),
    ensures
        s.filter(pred).len() < s.len(),
    decreases s.len(),
{
    reveal(Seq::filter);
    let rest = s.drop_last();
    if i == s.len() - 1 {
        rest.lemma_filter_len(pred);
    } else {
        assert(rest[i] == s[i]);
        lemma_filter_drops(rest, pred, i);
    }
}

/// One bullet's strike moves players from the living to the dead and
/// leaves their number as it is.
pub proof fn lemma_strike_keeps_headcount(
    b: Battle,
    bullet: BulletState,
    config: GameConfig,
    now: u64,
)
    ensures
        strike_spec(b, bullet, config, now).players.len() + strike_spec(
            b,
            bullet,
            config,
            now,
        ).dead.len() == b.players.len() + b.dead.len(),
{
    lemma_filter_parts(b.players, missed_by(bullet), hit_by(bullet));
}

/// The strikes of all bullets leave the number of players as it is.
pub proof fn lemma_volley_keeps_headcount(
    b: Battle,
    bullets: Seq<BulletState>,
    config: GameConfig,
    now: u64,
)
    ensures
        volley_spec(b, bullets, config, now).players.len() + volley_spec(
            b,
            bullets,
            config,
            now,
        ).dead.len() == b.players.len() + b.dead.len(),
    decreases bullets.len(),
{
    if bullets.len() > 0 {
        lemma_volley_keeps_headcount(b, bullets.drop_last(), config, now);
        lemma_strike_keeps_headcount(
            volley_spec(b, bullets.drop_last(), config, now),
            bullets.last(),
            config,
            now,
        );
    }
}

/// Pickups leave the number of the living as it is.
pub proof fn lemma_harvest_keeps_headcount(
    players: Seq<PlayerState>,
    items: Seq<Item>,
    config: GameConfig,
)
    ensures
        harvest(players, items, config).players.len() == players.len(),
    decreases items.len(),
{
    if items.len() > 0 {
        lemma_harvest_keeps_headcount(players, items.drop_last(), config);
    }
}

/// A tick brings no one into the game and takes no one out of it.
pub proof fn lemma_tick_keeps_headcount(v: GameView, now: u64, dt: u32, draws: Seq<u64>)
    ensures
        headcount(v.tick(now, dt, draws)) == headcount(v),
{
    let risen = v.revive(now);
    lemma_filter_parts(v.state.dead, due(now), pending(now));
    assert(headcount(risen) == headcount(v));
    let stocked = risen.spawn_item(now, draws);
    let draws1 = crate::motion::advance(draws, risen.spawn_draws(now));
    let cleared = stocked.moved(dt).cleared();
    assert(headcount(cleared) == headcount(risen));
    let crashed = cleared.crashed(now, draws1);
    let met = clashing_ids(cleared.state.players);
    lemma_filter_parts(
        cleared.state.players,
        tagged_out::<PlayerState>(met),
        tagged_in::<PlayerState>(met),
    );
    assert(headcount(crashed) == headcount(cleared));
    let draws2 = crate::motion::advance(draws1, cleared.crash_draws());
    let start = Battle {
        players: crashed.state.players,
        dead: crashed.state.dead,
        hits: Seq::empty(),
        used: Set::empty(),
        timers: crashed.survival_times,
        draws: draws2,
    };
    lemma_volley_keeps_headcount(start, crashed.state.bullets, crashed.config, now);
    let battle = crashed.battle(now, draws2);
    lemma_harvest_keeps_headcount(battle.players, crashed.state.items, crashed.config);
}

/// A player that joins is one more in the game.
pub proof fn lemma_add_player_headcount(
    v: GameView,
    player_id: u32,
    now: u64,
    draw_x: u64,
    draw_y: u64,
)
    ensures
        headcount(v.add_player(player_id, now, draw_x, draw_y)) == headcount(v) + 1,
{
}

/// A player that leaves is no longer in the game, and with it at least one
/// is gone; where it was not in the game, no one is gone.
pub proof fn lemma_player_left_headcount(v: GameView, player_id: u32)
    ensures
        headcount(v.player_left(player_id)) <= headcount(v),
        v.has_player(player_id) ==> headcount(v.player_left(player_id)) < headcount(v),
        !v.has_player(player_id) ==> headcount(v.player_left(player_id)) == headcount(v),
        !v.player_left(player_id).has_player(player_id),
{
    let after = v.player_left(player_id);
    v.state.players.lemma_filter_len(other_than(player_id));
    v.state.dead.lemma_filter_len(corpse_other_than(player_id));
    if v.has_player(player_id) {
        if exists|i: int|
            0 <= i < v.state.players.len() && (#[trigger] v.state.players[i]).id == player_id {
            let i = choose|i: int|
                0 <= i < v.state.players.len() && (#[trigger] v.state.players[i]).id == player_id;
            lemma_filter_drops(v.state.players, other_than(player_id), i);
        } else {
            let j = choose|j: int|
                0 <= j < v.state.dead.len() && (#[trigger] v.state.dead[j]).player.id == player_id;
            lemma_filter_drops(v.state.dead, corpse_other_than(player_id), j);
        }
    } else {
        assert(v.state.players.filter(other_than(player_id)) =~= v.state.players) by {
            lemma_filter_keeps_all(v.state.players, other_than(player_id));
        }
        assert(v.state.dead.filter(corpse_other_than(player_id)) =~= v.state.dead) by {
            lemma_filter_keeps_all(v.state.dead, corpse_other_than(player_id));
        }
    }
    assert forall|i: int| 0 <= i < after.state.players.len() implies (
    #[trigger] after.state.players[i]).id != player_id by {
        crate::seqs::lemma_filter_member(v.state.players, other_than(player_id), i);
    }
    assert forall|j: int| 0 <= j < after.state.dead.len() implies (
    #[trigger] after.state.dead[j]).player.id != player_id by {
        crate::seqs::lemma_filter_member(v.state.dead, corpse_other_than(player_id), j);
    }
}

/// A filter that every element passes keeps the sequence as it is.
pub proof fn lemma_filter_keeps_all<A>(s: Seq<A>, pred: spec_fn(A) -> bool)
    requires
        forall|i: int| 0 <= i < s.len() ==> pred(#[trigger] s[i]),
    ensures
        s.filter(pred) == s,
    decreases s.len(),
{
    reveal(Seq::filter);
    if s.len() > 0 {
        let rest = s.drop_last();
        assert forall|i: int| 0 <= i < rest.len() implies pred(#[trigger] rest[i]) by {
            assert(rest[i] == s[i]);
        }
        lemma_filter_keeps_all(rest, pred);
        assert(pred(s[s.len() - 1]));
        assert(rest.push(s.last()) =~= s);
    }
}

/// A command leaves the number of players as it is.
pub proof fn lemma_command_keeps_headcount(v: GameView, player_id: u32, cmd: GameCommand)
    ensures
        headcount(v.handle_cmd(player_id, cmd)) == headcount(v),
{
    match crate::game::find_player(v.state.players, player_id) {
        Some(i) => {
            assert(crate::game::is_first(v.state.players, player_id, i));
        },
        None => {},
    }
}

/// A reset leaves the number of players as it is.
pub proof fn lemma_reset_keeps_headcount(v: GameView, now: u64, draws: Seq<u64>)
    ensures
        headcount(v.reset(now, draws)) == headcount(v),
{
    crate::laws::lemma_enrol_adds_only(GameView::initial(v.config, now), v.roster(), now, draws);
}

} // verus!

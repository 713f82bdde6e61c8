//! The game: the world's state and the operations that change it.

use crate::clock::{deadline, deadline_spec, MAX_CONCURRENT_ITEMS, SURVIVAL_TIMEOUT};
use crate::collision::tagged_out;
use crate::combat::{
    annihilate, annihilated, bury, crash_players, crash_survivors, crash_victims, spend_bullets,
    volley, volley_spec, Battle,
};
use crate::models::{BulletState, DeadPlayer, GameCommand, GameConfig, Item, PlayerState};
use crate::motion::{
    advance, bullets_advanced, bullets_valid, cull_bullets, dead_valid, draw_at, inside,
    is_item_due, item_due, items_valid, lemma_advance, move_bullets, move_players, next_draw,
    pending, players_advanced, players_valid, revive, revived,
};
use crate::outside::{draw, seeded_rng};
use crate::pickup::{gather, harvest};
use crate::scoring::{credit, credited, reward, survival_rewards, Ledger};
use crate::seqs::{lemma_filter_all, lemma_filter_step};
use crate::units::{clamp, clamp_spec, SCALE};
use rand::rngs::StdRng;
use std::collections::{HashMap, HashSet};
use vstd::prelude::*;
use vstd::std_specs::hash::*;

verus! {

/// The world as players and spectators see it.
#[derive(Debug)]
pub struct GameState {
    pub bounds: (i64, i64),
    pub players: Vec<PlayerState>,
    pub dead: Vec<DeadPlayer>,
    pub bullets: Vec<BulletState>,
    pub items: Vec<Item>,
    pub scoreboard: HashMap<u32, u32>,
}

/// The mathematical value of a [`GameState`].
pub struct GameStateView {
    pub bounds: (i64, i64),
    pub players: Seq<PlayerState>,
    pub dead: Seq<DeadPlayer>,
    pub bullets: Seq<BulletState>,
    pub items: Seq<Item>,
    pub scoreboard: Map<u32, u32>,
}

impl View for GameState {
    type V = GameStateView;

    open spec fn view(&self) -> GameStateView {
        GameStateView {
            bounds: self.bounds,
            players: self.players@,
            dead: self.dead@,
            bullets: self.bullets@,
            items: self.items@,
            scoreboard: self.scoreboard@,
        }
    }
}

impl GameStateView {
    /// An empty world of the given size.
    pub open spec fn empty(config: GameConfig) -> GameStateView {
        GameStateView {
            bounds: (config.bound_x, config.bound_y),
            players: Seq::empty(),
            dead: Seq::empty(),
            bullets: Seq::empty(),
            items: Seq::empty(),
            scoreboard: Map::empty(),
        }
    }
}

impl GameState {
    /// An empty world of the given size.
    pub fn new(bounds: (i64, i64)) -> (r: GameState)
        ensures
            r@ == GameStateView::empty(GameConfig { bound_x: bounds.0, bound_y: bounds.1 }),
    {
        GameState {
            bounds,
            players: Vec::new(),
            dead: Vec::new(),
            bullets: Vec::new(),
            items: Vec::new(),
            scoreboard: HashMap::new(),
        }
    }
}

/// A copy of the vector.
pub fn copied<T: Copy>(v: &Vec<T>) -> (r: Vec<T>)
    ensures
        r@ == v@,
{
    let mut r: Vec<T> = Vec::new();
    let mut i: usize = 0;
    while i < v.len()
        invariant
            i <= v.len(),
            r@ == v@.take(i as int),
        decreases v.len() - i,
    {
        r.push(v[i]);
        assert(v@.take(i as int).push(v@[i as int]) =~= v@.take(i + 1));
        i += 1;
    }
    assert(v@.take(v.len() as int) =~= v@);
    r
}

impl Clone for GameState {
    fn clone(&self) -> (r: GameState)
        ensures
            r@ == self@,
    {
        GameState {
            bounds: (self.bounds.0, self.bounds.1),
            players: copied(&self.players),
            dead: copied(&self.dead),
            bullets: copied(&self.bullets),
            items: copied(&self.items),
            scoreboard: self.scoreboard.clone(),
        }
    }
}

/// The mathematical value of a [`Game`]: everything but its generator.
pub struct GameView {
    pub config: GameConfig,
    pub state: GameStateView,
    pub bullet_id_counter: u32,
    pub item_id_counter: u32,
    pub survival_times: Map<u32, u64>,
    pub last_item_spawn_at: u64,
}

/// The id after `id`; the last one is followed by the first.
pub open spec fn next_id(id: u32) -> u32 {
    if id == u32::MAX {
        0
    } else {
        (id + 1) as u32
    }
}

/// The test that a bullet belongs to the player `id`.
pub open spec fn owned_by(id: u32) -> spec_fn(BulletState) -> bool {
    |b: BulletState| b.player_id == id
}

/// The test that a player's id is not `id`.
pub open spec fn other_than(id: u32) -> spec_fn(PlayerState) -> bool {
    |p: PlayerState| p.id != id
}

/// The test that a dead player's id is not `id`.
pub open spec fn corpse_other_than(id: u32) -> spec_fn(DeadPlayer) -> bool {
    |d: DeadPlayer| d.player.id != id
}

/// The player at `i` is the first with the id `id`.
pub open spec fn is_first(players: Seq<PlayerState>, id: u32, i: int) -> bool {
    &&& 0 <= i < players.len()
    &&& players[i].id == id
    &&& forall|j: int| 0 <= j < i ==> (#[trigger] players[j]).id != id
}

/// The place of the first player with the id `id`, if there is one.
pub open spec fn find_player(players: Seq<PlayerState>, id: u32) -> Option<int> {
    if exists|i: int| is_first(players, id, i) {
        Some(choose|i: int| is_first(players, id, i))
    } else {
        None
    }
}

impl GameView {
    /// A game without players, bullets, items or scores.
    pub open spec fn initial(config: GameConfig, now: u64) -> GameView {
        GameView {
            config: config.normalized(),
            state: GameStateView::empty(config.normalized()),
            bullet_id_counter: 0,
            item_id_counter: 0,
            survival_times: Map::empty(),
            last_item_spawn_at: now,
        }
    }

    /// Everything in the world is valid, and no more than
    /// [`MAX_CONCURRENT_ITEMS`] items lie in it.
    pub open spec fn wf(self) -> bool {
        &&& self.config.valid()
        &&& self.state.bounds == (self.config.bound_x, self.config.bound_y)
        &&& players_valid(self.state.players, self.config)
        &&& dead_valid(self.state.dead, self.config)
        &&& bullets_valid(self.state.bullets)
        &&& items_valid(self.state.items, self.config)
        &&& self.state.items.len() <= MAX_CONCURRENT_ITEMS
    }

    /// The game after a fresh player joined at `now`, at the place that two
    /// draws pick. Its first survival reward is [`SURVIVAL_TIMEOUT`] away.
    pub open spec fn add_player(
        self,
        player_id: u32,
        now: u64,
        draw_x: u64,
        draw_y: u64,
    ) -> GameView {
        GameView {
            state: GameStateView {
                players: self.state.players.push(
                    PlayerState::fresh_in(player_id, self.config).relocated(
                        self.config,
                        draw_x,
                        draw_y,
                    ),
                ),
                ..self.state
            },
            survival_times: self.survival_times.insert(
                player_id,
                deadline_spec(now, SURVIVAL_TIMEOUT),
            ),
            ..self
        }
    }

    /// The game after the player `player_id` left: it is gone from the
    /// living, the dead, the scoreboard and the survival timers.
    pub open spec fn player_left(self, player_id: u32) -> GameView {
        GameView {
            state: GameStateView {
                players: self.state.players.filter(other_than(player_id)),
                dead: self.state.dead.filter(corpse_other_than(player_id)),
                scoreboard: self.state.scoreboard.remove(player_id),
                ..self.state
            },
            survival_times: self.survival_times.remove(player_id),
            ..self
        }
    }

    /// The player `player_id` is in the game, alive or dead.
    pub open spec fn has_player(self, player_id: u32) -> bool {
        ||| exists|i: int|
            0 <= i < self.state.players.len() && (#[trigger] self.state.players[i]).id
                == player_id
        ||| exists|j: int|
            0 <= j < self.state.dead.len() && (#[trigger] self.state.dead[j]).player.id
                == player_id
    }

    /// The game with the living player at `i` replaced.
    pub open spec fn with_player(self, i: int, player: PlayerState) -> GameView {
        GameView {
            state: GameStateView { players: self.state.players.update(i, player), ..self.state },
            ..self
        }
    }

    /// The number of bullets in flight that belong to the player `id`.
    pub open spec fn bullets_of(self, id: u32) -> nat {
        self.state.bullets.filter(owned_by(id)).len()
    }

    /// The game after a command of the player `player_id`. A command of a
    /// player that is not alive changes nothing, nor does a heading that is
    /// no unit vector, nor a shot beyond the player's bullet limit.
    pub open spec fn handle_cmd(self, player_id: u32, cmd: GameCommand) -> GameView {
        match find_player(self.state.players, player_id) {
            None => self,
            Some(i) => {
                let player = self.state.players[i];
                match cmd {
                    GameCommand::Rotate(heading) => if heading.valid() {
                        self.with_player(i, PlayerState { heading, ..player })
                    } else {
                        self
                    },
                    GameCommand::Throttle(throttle) => self.with_player(
                        i,
                        PlayerState {
                            throttle: clamp_spec(throttle as int, 0, SCALE as int) as i64,
                            ..player
                        },
                    ),
                    GameCommand::Fire => if self.bullets_of(player.id) < player.bullet_limit {
                        GameView {
                            state: GameStateView {
                                bullets: self.state.bullets.push(
                                    player.bullet_spec(self.bullet_id_counter),
                                ),
                                ..self.state
                            },
                            bullet_id_counter: next_id(self.bullet_id_counter),
                            ..self
                        }
                    } else {
                        self
                    },
                }
            },
        }
    }
}

impl GameView {
    /// The game after the dead whose time has come are back among the living.
    pub open spec fn revive(self, now: u64) -> GameView {
        GameView {
            state: GameStateView {
                players: self.state.players + revived(self.state.dead, now),
                dead: self.state.dead.filter(pending(now)),
                ..self.state
            },
            ..self
        }
    }

    /// The number of draws that the item spawn at `now` uses.
    pub open spec fn spawn_draws(self, now: u64) -> int {
        if item_due(self.state.items, self.last_item_spawn_at, now) {
            3
        } else {
            0
        }
    }

    /// The game after the item spawn at `now`: where an item is due, one with
    /// the next id appears, of the kind and at the place that three draws pick.
    pub open spec fn spawn_item(self, now: u64, draws: Seq<u64>) -> GameView {
        if item_due(self.state.items, self.last_item_spawn_at, now) {
            GameView {
                state: GameStateView {
                    items: self.state.items.push(
                        Item::randomized(
                            self.item_id_counter,
                            self.config,
                            draw_at(draws, 0),
                            draw_at(draws, 1),
                            draw_at(draws, 2),
                        ),
                    ),
                    ..self.state
                },
                item_id_counter: next_id(self.item_id_counter),
                last_item_spawn_at: now,
                ..self
            }
        } else {
            self
        }
    }

    /// The game after bullets and players moved for `dt` microseconds.
    pub open spec fn moved(self, dt: u32) -> GameView {
        GameView {
            state: GameStateView {
                bullets: bullets_advanced(self.state.bullets, dt),
                players: players_advanced(self.state.players, self.config, dt),
                ..self.state
            },
            ..self
        }
    }

    /// The game without the bullets that left the world and without those
    /// that met a bullet with another id.
    pub open spec fn cleared(self) -> GameView {
        GameView {
            state: GameStateView {
                bullets: annihilated(self.state.bullets.filter(inside(self.config))),
                ..self.state
            },
            ..self
        }
    }

    /// The number of draws that the collisions of players use.
    pub open spec fn crash_draws(self) -> int {
        2 * (crash_victims(self.state.players).len() as int)
    }

    /// The game after every player that overlaps a player with another id
    /// died. The scoreboard stays as it is.
    pub open spec fn crashed(self, now: u64, draws: Seq<u64>) -> GameView {
        GameView {
            state: GameStateView {
                players: crash_survivors(self.state.players),
                dead: self.state.dead + bury(
                    crash_victims(self.state.players),
                    self.config,
                    draws,
                    now,
                ),
                ..self.state
            },
            ..self
        }
    }

    /// The outcome of letting the bullets strike the players.
    pub open spec fn battle(self, now: u64, draws: Seq<u64>) -> Battle {
        volley_spec(
            Battle {
                players: self.state.players,
                dead: self.state.dead,
                hits: Seq::empty(),
                used: Set::empty(),
                timers: self.survival_times,
                draws,
            },
            self.state.bullets,
            self.config,
            now,
        )
    }

    /// The game after the bullets struck, the players picked up items, the
    /// shooters got their credit and the living their survival rewards.
    pub open spec fn settled(self, now: u64, draws: Seq<u64>) -> GameView {
        let battle = self.battle(now, draws);
        let picked = harvest(battle.players, self.state.items, self.config);
        let ledger = survival_rewards(
            Ledger { board: credited(self.state.scoreboard, battle.hits), timers: battle.timers },
            picked.players,
            now,
        );
        GameView {
            state: GameStateView {
                bounds: self.state.bounds,
                players: picked.players,
                dead: battle.dead,
                bullets: self.state.bullets.filter(tagged_out::<BulletState>(battle.used)),
                items: self.state.items.filter(tagged_out::<Item>(picked.used)),
                scoreboard: ledger.board,
            },
            survival_times: ledger.timers,
            ..self
        }
    }

    /// The game after one tick of `dt` microseconds at the time `now`, with
    /// `draws` as the random numbers it uses, in the order in which it uses
    /// them: the dead come back, an item may appear, bullets and players
    /// move, bullets leave or meet, players crash, bullets strike, items are
    /// picked up, and the scoreboard is brought up to date.
    pub open spec fn tick(self, now: u64, dt: u32, draws: Seq<u64>) -> GameView {
        let risen = self.revive(now);
        let stocked = risen.spawn_item(now, draws);
        let draws = advance(draws, risen.spawn_draws(now));
        let cleared = stocked.moved(dt).cleared();
        let crashed = cleared.crashed(now, draws);
        let draws = advance(draws, cleared.crash_draws());
        crashed.settled(now, draws)
    }

    /// The number of random numbers that one reset uses: two for each
    /// player, living or dead.
    pub open spec fn draws_for_players(self) -> nat {
        2 * (self.state.players.len() + self.state.dead.len())
    }

    /// The number of random numbers that one tick can use: three for an item
    /// and two for each player, living or dead.
    pub open spec fn draws_for_all(self) -> nat {
        self.draws_for_players() + 3
    }

    /// The ids of the living and then of the dead.
    pub open spec fn roster(self) -> Seq<u32> {
        self.state.players.map_values(|p: PlayerState| p.id) + self.state.dead.map_values(
            |d: DeadPlayer| d.player.id,
        )
    }

    /// The game after the players of `ids` joined one after the other at
    /// `now`, each at the place that the next two draws pick.
    pub open spec fn enrol(self, ids: Seq<u32>, now: u64, draws: Seq<u64>) -> GameView
        decreases ids.len(),
    {
        if ids.len() == 0 {
            self
        } else {
            let m = ids.len() - 1;
            self.enrol(ids.drop_last(), now, draws).add_player(
                ids.last(),
                now,
                draw_at(draws, 2 * m),
                draw_at(draws, 2 * m + 1),
            )
        }
    }

    /// The game started anew at `now` with the same world and the same
    /// players, living or dead: no bullets, no items, no scores.
    pub open spec fn reset(self, now: u64, draws: Seq<u64>) -> GameView {
        GameView::initial(self.config, now).enrol(self.roster(), now, draws)
    }
}

/// The authoritative simulation of one world.
pub struct Game {
    config: GameConfig,
    state: GameState,
    rng: StdRng,
    bullet_id_counter: u32,
    item_id_counter: u32,
    survival_times: HashMap<u32, u64>,
    last_item_spawn_at: u64,
}

impl View for Game {
    type V = GameView;

    closed spec fn view(&self) -> GameView {
        GameView {
            config: self.config,
            state: self.state@,
            bullet_id_counter: self.bullet_id_counter,
            item_id_counter: self.item_id_counter,
            survival_times: self.survival_times@,
            last_item_spawn_at: self.last_item_spawn_at,
        }
    }
}

/// The place of the first player with the id `id`, if there is one.
pub fn locate(players: &Vec<PlayerState>, id: u32) -> (r: Option<usize>)
    ensures
        match r {
            Some(i) => find_player(players@, id) == Some(i as int),
            None => find_player(players@, id).is_none(),
        },
{
    let mut i: usize = 0;
    while i < players.len()
        invariant
            i <= players.len(),
            forall|j: int| 0 <= j < i ==> (#[trigger] players@[j]).id != id,
        decreases players.len() - i,
    {
        if players[i].id == id {
            assert(is_first(players@, id, i as int));
            return Some(i);
        }
        i += 1;
    }
    None
}

/// The number of bullets that belong to the player `id`.
pub fn count_owned(bullets: &Vec<BulletState>, id: u32) -> (n: usize)
    ensures
        n == bullets@.filter(owned_by(id)).len(),
{
    let mut n: usize = 0;
    let mut i: usize = 0;
    assert(bullets@.take(0) =~= Seq::<BulletState>::empty());
    while i < bullets.len()
        invariant
            i <= bullets.len(),
            n <= i,
            n == bullets@.take(i as int).filter(owned_by(id)).len(),
        decreases bullets.len() - i,
    {
        proof {
            lemma_filter_step(bullets@, owned_by(id), i as int);
        }
        if bullets[i].player_id == id {
            n += 1;
        }
        i += 1;
    }
    assert(bullets@.take(bullets.len() as int) =~= bullets@);
    n
}

impl Game {
    /// A game without players whose generator starts from `seed`. The bounds
    /// are kept as they are configured; only a bound that cannot be counted
    /// in gives way to the nearest that can.
    pub fn new(config: GameConfig, now: u64, seed: u64) -> (r: Game)
        ensures
            r@ == GameView::initial(config, now),
            r@.wf(),
    {
        let config: GameConfig = config.normalize();
        Game {
            state: GameState::new((config.bound_x, config.bound_y)),
            rng: seeded_rng(seed),
            bullet_id_counter: 0,
            item_id_counter: 0,
            survival_times: HashMap::new(),
            config,
            last_item_spawn_at: now,
        }
    }

    /// The world as it stands.
    pub fn state(&self) -> (r: &GameState)
        ensures
            r@ == self@.state,
    {
        &self.state
    }

    /// The size of the world.
    pub fn bounds(&self) -> (r: (i64, i64))
        ensures
            r == (self@.config.bound_x, self@.config.bound_y),
    {
        (self.config.bound_x, self.config.bound_y)
    }

    /// Nothing is left to prepare once a game is made.
    pub fn init(&mut self)
        ensures
            final(self)@ == old(self)@,
    {
    }

    /// Adds a fresh player at the place that two draws pick.
    pub fn add_player_at(&mut self, player_id: u32, now: u64, draw_x: u64, draw_y: u64)
        requires
            old(self)@.wf(),
        ensures
            final(self)@ == old(self)@.add_player(player_id, now, draw_x, draw_y),
            final(self)@.wf(),
    {
        broadcast use group_hash_axioms;

        let mut player: PlayerState = PlayerState::new_in(player_id, self.config);
        player.randomize(self.config, draw_x, draw_y);
        self.state.players.push(player);
        self.survival_times.insert(player_id, deadline(now, SURVIVAL_TIMEOUT));
    }

    /// Adds a fresh player at a random place.
    pub fn add_player(&mut self, player_id: u32, now: u64)
        requires
            old(self)@.wf(),
        ensures
            exists|draw_x: u64, draw_y: u64|
                final(self)@ == #[trigger] old(self)@.add_player(player_id, now, draw_x, draw_y),
            final(self)@.wf(),
    {
        let draw_x: u64 = draw(&mut self.rng);
        let draw_y: u64 = draw(&mut self.rng);
        self.add_player_at(player_id, now, draw_x, draw_y);
    }

    /// Whether the player is in the game, alive or dead.
    pub fn has_player(&self, player_id: u32) -> (r: bool)
        ensures
            r == self@.has_player(player_id),
    {
        let mut i: usize = 0;
        while i < self.state.players.len()
            invariant
                i <= self.state.players.len(),
                forall|k: int| 0 <= k < i ==> (#[trigger] self.state.players@[k]).id != player_id,
            decreases self.state.players.len() - i,
        {
            if self.state.players[i].id == player_id {
                assert(self@.state.players[i as int].id == player_id);
                return true;
            }
            i += 1;
        }
        let mut j: usize = 0;
        while j < self.state.dead.len()
            invariant
                j <= self.state.dead.len(),
                forall|k: int|
                    0 <= k < self.state.players.len() ==> (#[trigger] self.state.players@[k]).id
                        != player_id,
                forall|k: int|
                    0 <= k < j ==> (#[trigger] self.state.dead@[k]).player.id != player_id,
            decreases self.state.dead.len() - j,
        {
            if self.state.dead[j].player.id == player_id {
                assert(self@.state.dead[j as int].player.id == player_id);
                return true;
            }
            j += 1;
        }
        false
    }

    /// Removes a player from the living, the dead, the scoreboard and the
    /// survival timers.
    pub fn player_left(&mut self, player_id: u32)
        requires
            old(self)@.wf(),
        ensures
            final(self)@ == old(self)@.player_left(player_id),
            final(self)@.wf(),
    {
        broadcast use group_hash_axioms;

        let mut players: Vec<PlayerState> = Vec::new();
        let mut i: usize = 0;
        assert(self.state.players@.take(0) =~= Seq::<PlayerState>::empty());
        while i < self.state.players.len()
            invariant
                i <= self.state.players.len(),
                *self == *old(self),
                players@ == self.state.players@.take(i as int).filter(other_than(player_id)),
            decreases self.state.players.len() - i,
        {
            proof {
                lemma_filter_step(self.state.players@, other_than(player_id), i as int);
            }
            if self.state.players[i].id != player_id {
                players.push(self.state.players[i]);
            }
            i += 1;
        }
        assert(self.state.players@.take(self.state.players.len() as int) =~= self.state.players@);
        let mut dead: Vec<DeadPlayer> = Vec::new();
        let mut k: usize = 0;
        assert(self.state.dead@.take(0) =~= Seq::<DeadPlayer>::empty());
        while k < self.state.dead.len()
            invariant
                k <= self.state.dead.len(),
                *self == *old(self),
                dead@ == self.state.dead@.take(k as int).filter(corpse_other_than(player_id)),
            decreases self.state.dead.len() - k,
        {
            proof {
                lemma_filter_step(self.state.dead@, corpse_other_than(player_id), k as int);
            }
            if self.state.dead[k].player.id != player_id {
                dead.push(self.state.dead[k]);
            }
            k += 1;
        }
        assert(self.state.dead@.take(self.state.dead.len() as int) =~= self.state.dead@);
        proof {
            let config = self.config;
            lemma_filter_all(
                self.state.players@,
                other_than(player_id),
                |p: PlayerState| p.valid(config),
            );
            lemma_filter_all(
                self.state.dead@,
                corpse_other_than(player_id),
                |d: DeadPlayer| d.player.valid(config),
            );
        }
        self.state.players = players;
        self.state.dead = dead;
        self.state.scoreboard.remove(&player_id);
        self.survival_times.remove(&player_id);
    }

    /// Carries out a command of a living player.
    pub fn handle_cmd(&mut self, player_id: u32, cmd: GameCommand)
        requires
            old(self)@.wf(),
        ensures
            final(self)@ == old(self)@.handle_cmd(player_id, cmd),
            final(self)@.wf(),
    {
        let found: Option<usize> = locate(&self.state.players, player_id);
        match found {
            None => {},
            Some(i) => {
                let mut player: PlayerState = self.state.players[i];
                match cmd {
                    GameCommand::Rotate(heading) => {
                        if heading.is_valid() {
                            player.heading = heading;
                            self.state.players.set(i, player);
                        }
                    },
                    GameCommand::Throttle(throttle) => {
                        player.throttle = clamp(throttle, 0, SCALE);
                        self.state.players.set(i, player);
                    },
                    GameCommand::Fire => {
                        let active_bullets: usize = count_owned(&self.state.bullets, player.id);
                        if active_bullets < player.bullet_limit as usize {
                            let bullet_id: u32 = self.bullet_id_counter;
                            self.bullet_id_counter = if bullet_id == u32::MAX {
                                0
                            } else {
                                bullet_id + 1
                            };
                            self.state.bullets.push(player.bullet(self.config, bullet_id));
                        }
                    },
                }
            },
        }
    }
    /// Advances the world by one tick of `dt` microseconds at the time `now`,
    /// with `draws` as its random numbers.
    pub fn tick_with(&mut self, now: u64, dt: u32, draws: &Vec<u64>)
        requires
            old(self)@.wf(),
        ensures
            final(self)@ == old(self)@.tick(now, dt, draws@),
            final(self)@.wf(),
    {
        let config: GameConfig = self.config;
        let mut cursor: usize = 0;
        assert(draws@.skip(0) =~= draws@);
        revive(&mut self.state.players, &mut self.state.dead, now, Ghost(config));
        let ghost risen = self@;
        assert(risen == old(self)@.revive(now));
        if is_item_due(&self.state.items, self.last_item_spawn_at, now) {
            let item_id: u32 = self.item_id_counter;
            self.item_id_counter = if item_id == u32::MAX {
                0
            } else {
                item_id + 1
            };
            proof {
                lemma_advance(draws@, 0, 0);
                lemma_advance(draws@, 1, 0);
                lemma_advance(draws@, 2, 0);
                lemma_advance(draws@, 0, 1);
                lemma_advance(draws@, 1, 1);
                lemma_advance(draws@, 2, 1);
            }
            let draw_kind: u64 = next_draw(draws, &mut cursor);
            let draw_x: u64 = next_draw(draws, &mut cursor);
            let draw_y: u64 = next_draw(draws, &mut cursor);
            self.state.items.push(Item::new_randomized(item_id, config, draw_kind, draw_x, draw_y));
            self.last_item_spawn_at = now;
        }
        let ghost stocked = self@;
        assert(stocked == risen.spawn_item(now, draws@));
        let ghost draws1 = draws@.skip(cursor as int);
        assert(draws1 == advance(draws@, risen.spawn_draws(now)));
        move_bullets(&mut self.state.bullets, dt);
        move_players(&mut self.state.players, config, dt);
        cull_bullets(&mut self.state.bullets, config);
        annihilate(&mut self.state.bullets);
        let ghost cleared = self@;
        assert(cleared == stocked.moved(dt).cleared());
        crash_players(
            &mut self.state.players,
            &mut self.state.dead,
            config,
            draws,
            &mut cursor,
            now,
        );
        let ghost crashed = self@;
        assert(crashed == cleared.crashed(now, draws1));
        let ghost draws2 = draws@.skip(cursor as int);
        assert(draws2 == advance(draws1, cleared.crash_draws()));
        let mut hits: Vec<u32> = Vec::new();
        let mut used: HashSet<u32> = HashSet::new();
        volley(
            &mut self.state.players,
            &mut self.state.dead,
            &mut hits,
            &mut used,
            &mut self.survival_times,
            &self.state.bullets,
            config,
            draws,
            &mut cursor,
            now,
        );
        gather(&mut self.state.players, &mut self.state.items, config);
        spend_bullets(&mut self.state.bullets, &used);
        credit(&mut self.state.scoreboard, &hits);
        reward(&mut self.state.scoreboard, &mut self.survival_times, &self.state.players, now);
        assert(self@ == crashed.settled(now, draws2));
    }

    /// Draws the two random numbers that place one player. The game itself
    /// stays as it is.
    pub fn draws_for_player(&mut self) -> (draws: Vec<u64>)
        ensures
            final(self)@ == old(self)@,
            draws@.len() == 2,
    {
        let mut draws: Vec<u64> = Vec::new();
        draws.push(draw(&mut self.rng));
        draws.push(draw(&mut self.rng));
        draws
    }

    /// Draws as many random numbers from the game's generator as one reset
    /// uses: two for each player, living or dead. The game itself stays as
    /// it is.
    pub fn draws_for_players(&mut self) -> (draws: Vec<u64>)
        ensures
            final(self)@ == old(self)@,
            draws@.len() == old(self)@.draws_for_players(),
    {
        let mut draws: Vec<u64> = Vec::new();
        let mut i: usize = 0;
        while i < self.state.players.len()
            invariant
                self@ == old(self)@,
                i <= self.state.players.len(),
                draws@.len() == 2 * i,
            decreases self.state.players.len() - i,
        {
            draws.push(draw(&mut self.rng));
            draws.push(draw(&mut self.rng));
            i += 1;
        }
        let mut k: usize = 0;
        while k < self.state.dead.len()
            invariant
                self@ == old(self)@,
                k <= self.state.dead.len(),
                draws@.len() == 2 * self.state.players.len() + 2 * k,
            decreases self.state.dead.len() - k,
        {
            draws.push(draw(&mut self.rng));
            draws.push(draw(&mut self.rng));
            k += 1;
        }
        draws
    }

    /// Draws as many random numbers from the game's generator as one tick
    /// can use: three for an item and two for each player, living or dead.
    /// The game itself stays as it is.
    pub fn draws_for_all(&mut self) -> (draws: Vec<u64>)
        ensures
            final(self)@ == old(self)@,
            draws@.len() == old(self)@.draws_for_all(),
    {
        let mut draws: Vec<u64> = self.draws_for_players();
        draws.push(draw(&mut self.rng));
        draws.push(draw(&mut self.rng));
        draws.push(draw(&mut self.rng));
        draws
    }

    /// Advances the world by one tick of `dt` microseconds at the time `now`,
    /// with random numbers from the game's own generator.
    pub fn tick(&mut self, now: u64, dt: u32)
        requires
            old(self)@.wf(),
        ensures
            exists|draws: Seq<u64>| final(self)@ == #[trigger] old(self)@.tick(now, dt, draws),
            final(self)@.wf(),
    {
        let draws: Vec<u64> = self.draws_for_all();
        self.tick_with(now, dt, &draws);
    }

    /// The ids of the living and then of the dead.
    pub fn roster(&self) -> (ids: Vec<u32>)
        ensures
            ids@ == self@.roster(),
    {
        let mut ids: Vec<u32> = Vec::new();
        let mut i: usize = 0;
        while i < self.state.players.len()
            invariant
                i <= self.state.players.len(),
                ids@ == self.state.players@.take(i as int).map_values(|p: PlayerState| p.id),
            decreases self.state.players.len() - i,
        {
            ids.push(self.state.players[i].id);
            assert(ids@ =~= self.state.players@.take(i + 1).map_values(|p: PlayerState| p.id));
            i += 1;
        }
        assert(self.state.players@.take(self.state.players.len() as int) =~= self.state.players@);
        let ghost living = ids@;
        let mut k: usize = 0;
        assert(ids@ =~= living + self.state.dead@.take(0).map_values(|d: DeadPlayer| d.player.id));
        while k < self.state.dead.len()
            invariant
                k <= self.state.dead.len(),
                ids@ == living + self.state.dead@.take(k as int).map_values(
                    |d: DeadPlayer| d.player.id,
                ),
            decreases self.state.dead.len() - k,
        {
            ids.push(self.state.dead[k].player.id);
            assert(ids@ =~= living + self.state.dead@.take(k + 1).map_values(
                |d: DeadPlayer| d.player.id,
            ));
            k += 1;
        }
        assert(self.state.dead@.take(self.state.dead.len() as int) =~= self.state.dead@);
        ids
    }

    /// Starts the game anew at `now` with the same world and the same
    /// players, with `draws` as the random numbers that place them.
    pub fn reset_with(&mut self, now: u64, draws: &Vec<u64>)
        requires
            old(self)@.wf(),
        ensures
            final(self)@ == old(self)@.reset(now, draws@),
            final(self)@.wf(),
    {
        let ids: Vec<u32> = self.roster();
        let config: GameConfig = self.config;
        self.state = GameState::new((config.bound_x, config.bound_y));
        self.bullet_id_counter = 0;
        self.item_id_counter = 0;
        self.survival_times = HashMap::new();
        self.last_item_spawn_at = now;
        let ghost start = self@;
        assert(start == GameView::initial(config, now));
        let mut cursor: usize = 0;
        let mut m: usize = 0;
        assert(ids@.take(0) =~= Seq::<u32>::empty());
        assert(draws@.skip(0) =~= draws@);
        while m < ids.len()
            invariant
                m <= ids.len(),
                self@.wf(),
                self@ == start.enrol(ids@.take(m as int), now, draws@),
                cursor <= draws.len(),
                draws@.skip(cursor as int) == advance(draws@, 2 * m),
            decreases ids.len() - m,
        {
            proof {
                lemma_advance(draws@, 2 * m, 0);
                lemma_advance(draws@, 2 * m, 1);
                lemma_advance(draws@, 2 * m + 1, 0);
                lemma_advance(draws@, 2 * m + 1, 1);
                assert(ids@.take(m + 1).drop_last() =~= ids@.take(m as int));
            }
            let draw_x: u64 = next_draw(draws, &mut cursor);
            let draw_y: u64 = next_draw(draws, &mut cursor);
            self.add_player_at(ids[m], now, draw_x, draw_y);
            m += 1;
        }
        assert(ids@.take(ids.len() as int) =~= ids@);
    }

    /// Starts the game anew at `now` with the same world and the same
    /// players, each at a random place.
    pub fn reset(&mut self, now: u64)
        requires
            old(self)@.wf(),
        ensures
            exists|draws: Seq<u64>| final(self)@ == #[trigger] old(self)@.reset(now, draws),
            final(self)@.wf(),
    {
        let draws: Vec<u64> = self.draws_for_players();
        self.reset_with(now, &draws);
    }
}

} // verus!

//! The decisions of the loop that drives one game: what each queued command
//! does, when the game ends and when it ticks.

use crate::clock::{deadline, deadline_spec, TICK_MICROS};
use crate::crowd::{
    headcount, lemma_add_player_headcount, lemma_command_keeps_headcount,
    lemma_player_left_headcount, lemma_reset_keeps_headcount, lemma_tick_keeps_headcount,
};
use crate::game::{Game, GameState, GameView};
use crate::lifecycle::{will_end_game, will_end_game_spec, Admission, GameStatus};
use crate::models::{GameCommand, GameConfig};
use vstd::prelude::*;

verus! {

/// What reaches the loop through its queue.
#[derive(Clone, Copy, Debug, PartialEq, Eq, Structural)]
pub enum GameLoopCommand {
    PlayerJoined(u32),
    PlayerLeft(u32),
    GameCommand(u32, GameCommand),
    Reset,
}

/// What one turn of the loop did.
#[derive(Clone, Copy, Debug, PartialEq, Eq, Structural)]
pub struct Turn {
    /// The game's time was up and the game was finished.
    pub ended: bool,
    /// The game advanced by one tick.
    pub ticked: bool,
}

/// The state of the loop of one room.
pub struct GameLoop {
    game: Game,
    admission: Admission,
    time_limit_seconds: u32,
    game_over_at: Option<u64>,
}

/// The mathematical value of a [`GameLoop`].
pub struct GameLoopView {
    pub game: GameView,
    pub admission: Admission,
    pub time_limit_seconds: u32,
    pub game_over_at: Option<u64>,
}

impl View for GameLoop {
    type V = GameLoopView;

    closed spec fn view(&self) -> GameLoopView {
        GameLoopView {
            game: self.game@,
            admission: self.admission,
            time_limit_seconds: self.time_limit_seconds,
            game_over_at: self.game_over_at,
        }
    }
}

/// The time at which a game that starts at `now` is over.
pub open spec fn game_over_time(now: u64, time_limit_seconds: u32) -> u64 {
    deadline_spec(now, (time_limit_seconds * 1000) as u64)
}

impl GameLoopView {
    /// The game is well formed, and the loop counts every player in it: no
    /// more players are in the game, living or dead, than the loop counts,
    /// and in a room with a limit the loop never counts more than the limit.
    pub open spec fn wf(self) -> bool {
        &&& self.game.wf()
        &&& headcount(self.game) <= self.admission.num_players
        &&& self.admission.max_players > 0 ==> self.admission.num_players
            <= self.admission.max_players
        &&& self.admission.status == GameStatus::New && self.admission.max_players == 0
            ==> self.admission.num_players == 0
    }

    /// A loop whose game has not started.
    pub open spec fn initial(
        config: GameConfig,
        max_players: u32,
        time_limit_seconds: u32,
        now: u64,
    ) -> GameLoopView {
        GameLoopView {
            game: GameView::initial(config, now),
            admission: Admission::fresh(max_players),
            time_limit_seconds,
            game_over_at: None,
        }
    }

    /// The loop after a player asked to join at `now`. A player that is let
    /// in appears at the place that two draws pick; where the game starts
    /// with it, the time limit runs from `now`.
    pub open spec fn joined(self, id: u32, now: u64, draw_x: u64, draw_y: u64) -> GameLoopView {
        if self.admission.admits() {
            GameLoopView {
                game: self.game.add_player(id, now, draw_x, draw_y),
                admission: self.admission.joined(),
                game_over_at: if self.admission.starts() {
                    Some(game_over_time(now, self.time_limit_seconds))
                } else {
                    self.game_over_at
                },
                ..self
            }
        } else {
            self
        }
    }

    /// The loop after one command from the queue, handled at `now` with the
    /// given draws. A player that leaves is counted out only if it is in the
    /// game. A game command counts only while the game is running.
    pub open spec fn handle(self, cmd: GameLoopCommand, now: u64, draws: Seq<u64>) -> GameLoopView {
        match cmd {
            GameLoopCommand::PlayerJoined(id) => self.joined(
                id,
                now,
                crate::motion::draw_at(draws, 0),
                crate::motion::draw_at(draws, 1),
            ),
            GameLoopCommand::PlayerLeft(id) => GameLoopView {
                game: self.game.player_left(id),
                admission: if self.game.has_player(id) {
                    self.admission.left()
                } else {
                    self.admission
                },
                ..self
            },
            GameLoopCommand::GameCommand(id, cmd) => if self.admission.status
                == GameStatus::Running {
                GameLoopView { game: self.game.handle_cmd(id, cmd), ..self }
            } else {
                self
            },
            GameLoopCommand::Reset => GameLoopView { game: self.game.reset(now, draws), ..self },
        }
    }

    /// Whether the game is over at `now`.
    pub open spec fn ends(self, now: u64) -> bool {
        will_end_game_spec(
            self.admission.status,
            self.admission.max_players,
            self.game_over_at,
            now,
        )
    }

    /// The loop after its time limit was looked at: a game whose time is up
    /// is finished.
    pub open spec fn timed(self, now: u64) -> GameLoopView {
        if self.ends(now) {
            GameLoopView {
                admission: Admission { status: GameStatus::Finished, ..self.admission },
                game_over_at: None,
                ..self
            }
        } else {
            self
        }
    }

    /// Whether the loop ticks at `now`: the game is running and its time is
    /// not up.
    pub open spec fn ticks(self, now: u64) -> bool {
        self.timed(now).admission.status == GameStatus::Running
    }

    /// The loop after one turn at `now`: the time limit is looked at, and a
    /// running game advances by one tick with the given draws.
    pub open spec fn turn(self, now: u64, draws: Seq<u64>) -> GameLoopView {
        let timed = self.timed(now);
        if self.ticks(now) {
            GameLoopView { game: timed.game.tick(now, TICK_MICROS, draws), ..timed }
        } else {
            timed
        }
    }
}

/// A room with a limit never holds more players, living or dead, than its
/// limit.
pub proof fn lemma_never_more_than_the_limit(v: GameLoopView)
    requires
        v.wf(),
        v.admission.max_players > 0,
    ensures
        v.game.state.players.len() + v.game.state.dead.len() <= v.admission.max_players,
{
}

impl GameLoop {
    /// A loop for a room of the given size and time limit, whose game draws
    /// from a generator that starts from `seed`.
    pub fn new(
        config: GameConfig,
        max_players: u32,
        time_limit_seconds: u32,
        now: u64,
        seed: u64,
    ) -> (r: GameLoop)
        ensures
            r@ == GameLoopView::initial(config, max_players, time_limit_seconds, now),
            r@.wf(),
    {
        let mut game: Game = Game::new(config, now, seed);
        game.init();
        GameLoop {
            game,
            admission: Admission::new(max_players),
            time_limit_seconds,
            game_over_at: None,
        }
    }

    /// Where the room stands in its lifecycle.
    pub fn status(&self) -> (r: GameStatus)
        ensures
            r == self@.admission.status,
    {
        self.admission.status
    }

    /// The number of players that the loop counts.
    pub fn num_players(&self) -> (r: u32)
        ensures
            r == self@.admission.num_players,
    {
        self.admission.num_players
    }

    /// The time at which the running game is over, if it has a limit.
    pub fn game_over_at(&self) -> (r: Option<u64>)
        ensures
            r == self@.game_over_at,
    {
        self.game_over_at
    }

    /// The world as it stands, for the snapshot that follows each turn.
    pub fn state(&self) -> (r: &GameState)
        ensures
            r@ == self@.game.state,
    {
        self.game.state()
    }

    /// Handles one command from the queue at `now`, with `draws` as the
    /// random numbers it uses.
    pub fn handle_with(&mut self, cmd: GameLoopCommand, now: u64, draws: &Vec<u64>)
        requires
            old(self)@.wf(),
        ensures
            final(self)@ == old(self)@.handle(cmd, now, draws@),
            final(self)@.wf(),
    {
        proof {
            let v = old(self)@.game;
            match cmd {
                GameLoopCommand::PlayerJoined(id) => {
                    lemma_add_player_headcount(
                        v,
                        id,
                        now,
                        crate::motion::draw_at(draws@, 0),
                        crate::motion::draw_at(draws@, 1),
                    );
                },
                GameLoopCommand::PlayerLeft(id) => {
                    lemma_player_left_headcount(v, id);
                },
                GameLoopCommand::GameCommand(id, cmd) => {
                    lemma_command_keeps_headcount(v, id, cmd);
                },
                GameLoopCommand::Reset => {
                    lemma_reset_keeps_headcount(v, now, draws@);
                },
            }
        }
        match cmd {
            GameLoopCommand::PlayerJoined(id) => {
                let ghost before = self.admission;
                if self.admission.join() {
                    let draw_x: u64 = crate::motion::take_draw(draws, 0);
                    let draw_y: u64 = crate::motion::take_draw(draws, 1);
                    self.game.add_player_at(id, now, draw_x, draw_y);
                    if self.admission.status.is_running() {
                        assert(before.starts());
                        let limit: u64 = self.time_limit_seconds as u64 * 1000;
                        self.game_over_at = Some(deadline(now, limit));
                    }
                }
            },
            GameLoopCommand::PlayerLeft(id) => {
                let counted: bool = self.game.has_player(id);
                self.game.player_left(id);
                if counted {
                    self.admission.leave();
                }
            },
            GameLoopCommand::GameCommand(id, cmd) => {
                if self.admission.status.is_running() {
                    self.game.handle_cmd(id, cmd);
                }
            },
            GameLoopCommand::Reset => {
                self.game.reset_with(now, draws);
            },
        }
    }

    /// Handles one command from the queue at `now`, with random numbers from
    /// the game's own generator: two for a player that joins, two for each
    /// player where the game is reset, none otherwise.
    pub fn handle(&mut self, cmd: GameLoopCommand, now: u64)
        requires
            old(self)@.wf(),
        ensures
            exists|draws: Seq<u64>| final(self)@ == #[trigger] old(self)@.handle(cmd, now, draws),
            final(self)@.wf(),
    {
        let draws: Vec<u64> = match cmd {
            GameLoopCommand::PlayerJoined(_) => self.game.draws_for_player(),
            GameLoopCommand::Reset => self.game.draws_for_players(),
            _ => Vec::new(),
        };
        self.handle_with(cmd, now, &draws);
    }

    /// Takes one turn at `now` with the given draws: ends the game if its
    /// time is up and ticks it if it is running.
    pub fn turn_with(&mut self, now: u64, draws: &Vec<u64>) -> (r: Turn)
        requires
            old(self)@.wf(),
        ensures
            final(self)@ == old(self)@.turn(now, draws@),
            r.ended == old(self)@.ends(now),
            r.ticked == old(self)@.ticks(now),
            final(self)@.wf(),
    {
        proof {
            lemma_tick_keeps_headcount(old(self)@.game, now, TICK_MICROS, draws@);
        }
        let ended: bool = will_end_game(
            &self.admission.status,
            self.admission.max_players,
            self.game_over_at,
            now,
        );
        if ended {
            self.admission.status = GameStatus::Finished;
            self.game_over_at = None;
        }
        if self.admission.status.is_running() {
            self.game.tick_with(now, TICK_MICROS, draws);
            Turn { ended, ticked: true }
        } else {
            Turn { ended, ticked: false }
        }
    }

    /// Takes one turn at `now` with random numbers from the game's own
    /// generator.
    pub fn turn(&mut self, now: u64) -> (r: Turn)
        requires
            old(self)@.wf(),
        ensures
            exists|draws: Seq<u64>| final(self)@ == #[trigger] old(self)@.turn(now, draws),
            r.ended == old(self)@.ends(now),
            r.ticked == old(self)@.ticks(now),
            final(self)@.wf(),
    {
        let draws: Vec<u64> = self.game.draws_for_all();
        self.turn_with(now, &draws)
    }
}

} // verus!

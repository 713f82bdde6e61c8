//! The lifecycle of a room: who may join, when the game starts and when it
//! is over.

use vstd::prelude::*;

verus! {

/// Where a room stands in its lifecycle.
#[derive(Clone, Copy, Debug, PartialEq, Eq, Structural)]
pub enum GameStatus {
    New,
    Running,
    Finished,
}

impl GameStatus {
    /// Whether the game is under way.
    pub fn is_running(&self) -> (r: bool)
        ensures
            r == (*self == GameStatus::Running),
    {
        match self {
            GameStatus::Running => true,
            _ => false,
        }
    }
}

/// A new room takes a player while it has room; a room without a limit takes
/// the one player that starts it. A room that has started takes no one.
pub open spec fn can_add_player_spec(
    status: GameStatus,
    max_players: u32,
    num_players: u32,
) -> bool {
    status == GameStatus::New && (max_players == 0 || num_players < max_players)
}

/// Whether a player may join.
pub fn can_add_player(status: &GameStatus, max_players: u32, num_players: u32) -> (r: bool)
    ensures
        r == can_add_player_spec(*status, max_players, num_players),
{
    match status {
        GameStatus::New => max_players == 0 || num_players < max_players,
        _ => false,
    }
}

/// A new room starts once it is full; a room without a limit starts with its
/// first player.
pub open spec fn can_start_game_spec(
    status: GameStatus,
    max_players: u32,
    num_players: u32,
) -> bool {
    status == GameStatus::New && (max_players == 0 || num_players == max_players)
}

/// Whether the game starts, asked after a player was added.
pub fn can_start_game(status: &GameStatus, max_players: u32, num_players: u32) -> (r: bool)
    ensures
        r == can_start_game_spec(*status, max_players, num_players),
{
    match status {
        GameStatus::New => max_players == 0 || num_players == max_players,
        _ => false,
    }
}

/// A running game with a player limit ends when its time is up. A room
/// without a limit runs on.
pub open spec fn will_end_game_spec(
    status: GameStatus,
    max_players: u32,
    game_over_at: Option<u64>,
    now: u64,
) -> bool {
    &&& status == GameStatus::Running
    &&& max_players != 0
    &&& game_over_at matches Some(at) && now >= at
}

/// Whether the game ends at `now`.
pub fn will_end_game(
    status: &GameStatus,
    max_players: u32,
    game_over_at: Option<u64>,
    now: u64,
) -> (r: bool)
    ensures
        r == will_end_game_spec(*status, max_players, game_over_at, now),
{
    if max_players == 0 {
        return false;
    }
    match status {
        GameStatus::Running => {
            match game_over_at {
                Some(at) => now >= at,
                None => false,
            }
        },
        _ => false,
    }
}

/// The part of a room's state that decides who may join.
#[derive(Clone, Copy, Debug, PartialEq, Eq, Structural)]
pub struct Admission {
    pub status: GameStatus,
    pub max_players: u32,
    pub num_players: u32,
}

impl Admission {
    /// A new room for up to `max_players` players; zero means no limit.
    pub open spec fn fresh(max_players: u32) -> Admission {
        Admission { status: GameStatus::New, max_players, num_players: 0 }
    }

    /// A new room for up to `max_players` players; zero means no limit.
    pub fn new(max_players: u32) -> (r: Admission)
        ensures
            r == Admission::fresh(max_players),
    {
        Admission { status: GameStatus::New, max_players, num_players: 0 }
    }

    /// Whether a player that asks to join is let in.
    pub open spec fn admits(self) -> bool {
        can_add_player_spec(self.status, self.max_players, self.num_players)
    }

    /// The count of players after one more came in. The highest count stays
    /// as it is.
    pub open spec fn one_more(self) -> u32 {
        if self.num_players < u32::MAX {
            (self.num_players + 1) as u32
        } else {
            self.num_players
        }
    }

    /// The room after a player asked to join.
    pub open spec fn joined(self) -> Admission {
        if self.admits() {
            Admission {
                status: if can_start_game_spec(self.status, self.max_players, self.one_more()) {
                    GameStatus::Running
                } else {
                    self.status
                },
                num_players: self.one_more(),
                ..self
            }
        } else {
            self
        }
    }

    /// Whether the game starts with the player that asks to join.
    pub open spec fn starts(self) -> bool {
        self.admits() && self.joined().status == GameStatus::Running
    }

    /// Lets a player in if the room takes one. Tells whether it did.
    pub fn join(&mut self) -> (admitted: bool)
        ensures
            admitted == old(self).admits(),
            *final(self) == old(self).joined(),
    {
        if !can_add_player(&self.status, self.max_players, self.num_players) {
            return false;
        }
        if self.num_players < u32::MAX {
            self.num_players = self.num_players + 1;
        }
        if can_start_game(&self.status, self.max_players, self.num_players) {
            self.status = GameStatus::Running;
        }
        true
    }

    /// The room after a player left. The count stays at zero where no one is
    /// left to leave.
    pub open spec fn left(self) -> Admission {
        Admission {
            num_players: if self.num_players > 0 {
                (self.num_players - 1) as u32
            } else {
                0
            },
            ..self
        }
    }

    /// Counts a player out.
    pub fn leave(&mut self)
        ensures
            *final(self) == old(self).left(),
    {
        if self.num_players > 0 {
            self.num_players = self.num_players - 1;
        }
    }

    /// The room after `k` players asked to join one after the other.
    pub open spec fn after_joins(self, k: nat) -> Admission
        decreases k,
    {
        if k == 0 {
            self
        } else {
            self.after_joins((k - 1) as nat).joined()
        }
    }

    /// How many of `k` players that ask to join one after the other are let in.
    pub open spec fn admitted_of(self, k: nat) -> nat
        decreases k,
    {
        if k == 0 {
            0
        } else {
            let before = self.admitted_of((k - 1) as nat);
            if self.after_joins((k - 1) as nat).admits() {
                before + 1
            } else {
                before
            }
        }
    }
}

/// Of the players that ask to join a new room with a limit, one after the
/// other, exactly the first `max_players` are let in: the next one is not,
/// nor is any after it.
pub proof fn lemma_admission_limit(max_players: u32, k: nat)
    requires
        max_players > 0,
    ensures
        Admission::fresh(max_players).admitted_of(k) == if k <= max_players {
            k
        } else {
            max_players as nat
        },
        k >= max_players ==> !Admission::fresh(max_players).after_joins(k).admits(),
        k < max_players ==> Admission::fresh(max_players).after_joins(k) == (Admission {
            status: GameStatus::New,
            max_players,
            num_players: k as u32,
        }),
        k >= max_players ==> Admission::fresh(max_players).after_joins(k) == (Admission {
            status: GameStatus::Running,
            max_players,
            num_players: max_players,
        }),
    decreases k,
{
    if k > 0 {
        lemma_admission_limit(max_players, (k - 1) as nat);
    }
}

} // verus!

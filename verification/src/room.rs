//! The coordinator of one room: which sessions are connected, which player
//! each key stands for, and what each join and leave sets in motion.

use crate::game_loop::GameLoopCommand;
use crate::keyed::{
    by_text, cut, distinct_keys, get, insert, lemma_distinct_kept, lookup, of_text, put, remove,
};
use crate::lifecycle::Admission;
use crate::messages::{PlayerGameCommand, ServerCommand, SetPlayerInfoCommand};
use crate::models::GameConfig;
use vstd::prelude::*;
use vstd::string::*;

verus! {

/// What a socket tells its room. A session is known by its number.
#[derive(Debug)]
pub enum SocketEvent {
    /// A session opened: the key, the team name and the session.
    Join(String, String, u64),
    /// A session closed: the key and the session.
    Leave(String, u64),
}

/// What a join sets in motion, in the order in which it is to be done: stop
/// the session that was `kicked`; queue `PlayerJoined` for the loop where a
/// player `joined`; send `Id` to the joining session where it has an `id`;
/// then send `team_names` to each of the `recipients`.
pub struct JoinOutcome {
    pub kicked: Option<u64>,
    pub joined: Option<u32>,
    pub id: Option<u32>,
    pub team_names: Vec<(u32, String)>,
    pub recipients: Vec<u64>,
}

/// The mathematical value of a [`JoinOutcome`].
pub struct JoinOutcomeView {
    pub kicked: Option<u64>,
    pub joined: Option<u32>,
    pub id: Option<u32>,
    pub team_names: Seq<(u32, Seq<char>)>,
    pub recipients: Seq<u64>,
}

impl View for JoinOutcome {
    type V = JoinOutcomeView;

    open spec fn view(&self) -> JoinOutcomeView {
        JoinOutcomeView {
            kicked: self.kicked,
            joined: self.joined,
            id: self.id,
            team_names: of_text(self.team_names@),
            recipients: self.recipients@,
        }
    }
}

/// What the room does for an event of a socket.
pub enum Outcome {
    Joined(JoinOutcome),
    /// The player whose `PlayerLeft` is to be queued for the loop, if any.
    Left(Option<u32>),
}

/// What a room keeps of a key: the player that the key stands for, and
/// whether the room let that player into the game.
#[derive(Clone, Copy, Debug, PartialEq, Eq, Structural)]
pub struct Seat {
    pub player_id: u32,
    pub admitted: bool,
}

/// The coordinator of one room.
pub struct GameActor {
    connections: Vec<(String, u64)>,
    spectators: Vec<u64>,
    team_names: Vec<(u32, String)>,
    player_id_counter: u32,
    api_key_to_player_id: Vec<(String, Seat)>,
    game_config: GameConfig,
    time_limit_seconds: u32,
    admission: Admission,
}

/// The mathematical value of a [`GameActor`].
pub struct GameActorView {
    pub connections: Seq<(Seq<char>, u64)>,
    pub spectators: Seq<u64>,
    pub team_names: Seq<(u32, Seq<char>)>,
    pub player_id_counter: u32,
    pub api_key_to_player_id: Seq<(Seq<char>, Seat)>,
    pub game_config: GameConfig,
    pub time_limit_seconds: u32,
    pub admission: Admission,
}

impl View for GameActor {
    type V = GameActorView;

    closed spec fn view(&self) -> GameActorView {
        GameActorView {
            connections: by_text(self.connections@),
            spectators: self.spectators@,
            team_names: of_text(self.team_names@),
            player_id_counter: self.player_id_counter,
            api_key_to_player_id: by_text(self.api_key_to_player_id@),
            game_config: self.game_config,
            time_limit_seconds: self.time_limit_seconds,
            admission: self.admission,
        }
    }
}

/// The test that a key's player was let into the game.
pub open spec fn is_seated() -> spec_fn((Seq<char>, Seat)) -> bool {
    |e: (Seq<char>, Seat)| e.1.admitted
}

/// The number of keys whose player was let into the game.
pub open spec fn seated(table: Seq<(Seq<char>, Seat)>) -> nat {
    table.filter(is_seated()).len()
}

/// The key under which observers connect.
pub open spec fn spectator_key() -> Seq<char> {
    "SPECTATOR"@
}

/// The test that a session is not `addr`.
pub open spec fn not_session(addr: u64) -> spec_fn(u64) -> bool {
    |a: u64| a != addr
}

impl GameActorView {
    /// A room without sessions.
    pub open spec fn initial(
        config: GameConfig,
        max_players: u32,
        time_limit_seconds: u32,
    ) -> GameActorView {
        GameActorView {
            connections: Seq::empty(),
            spectators: Seq::empty(),
            team_names: Seq::empty(),
            player_id_counter: 0,
            api_key_to_player_id: Seq::empty(),
            game_config: config,
            time_limit_seconds,
            admission: Admission::fresh(max_players),
        }
    }

    /// The sessions that get every broadcast: the players' in the order in
    /// which their keys first connected, then the spectators'.
    pub open spec fn recipients(self) -> Seq<u64> {
        self.connections.map_values(|e: (Seq<char>, u64)| e.1) + self.spectators
    }

    /// The room after a spectator's session opened.
    pub open spec fn spectator_joined(self, addr: u64) -> GameActorView {
        GameActorView {
            spectators: if self.spectators.contains(addr) {
                self.spectators
            } else {
                self.spectators.push(addr)
            },
            ..self
        }
    }

    /// No key, no player id and no spectator stands twice in the room's
    /// tables, and the room counts the players that it let in.
    pub open spec fn wf(self) -> bool {
        &&& distinct_keys(self.connections)
        &&& distinct_keys(self.api_key_to_player_id)
        &&& distinct_keys(self.team_names)
        &&& self.spectators.no_duplicates()
        &&& self.counts_the_seated()
    }

    /// The room counts every key whose player it let into the game, and in a
    /// room with a limit it never counts more than the limit.
    pub open spec fn counts_the_seated(self) -> bool {
        &&& seated(self.api_key_to_player_id) <= self.admission.num_players
        &&& self.admission.max_players > 0 ==> self.admission.num_players
            <= self.admission.max_players
        &&& self.admission.status == crate::lifecycle::GameStatus::New
            && self.admission.max_players == 0 ==> self.admission.num_players == 0
    }

    /// Whether a joining key gets a fresh player: it stands for none yet.
    pub open spec fn is_new_player(self, api_key: Seq<char>) -> bool {
        get(self.api_key_to_player_id, api_key).is_none()
    }

    /// The player that a joining key stands for: the one it stood for
    /// before, or a fresh one with the next id, who is let into the game if
    /// the room takes one more player.
    pub open spec fn seat_for(self, api_key: Seq<char>) -> Seat {
        match get(self.api_key_to_player_id, api_key) {
            Some(seat) => seat,
            None => Seat { player_id: self.player_id_counter, admitted: self.admission.admits() },
        }
    }

    /// The room after a player's session opened: the session stands under
    /// its key, a fresh player is recorded and asks to be let in, and the
    /// team name of the key's player is set.
    pub open spec fn player_joined(
        self,
        api_key: Seq<char>,
        team_name: Seq<char>,
        addr: u64,
    ) -> GameActorView {
        let fresh = self.is_new_player(api_key);
        let seat = self.seat_for(api_key);
        GameActorView {
            connections: put(self.connections, api_key, addr),
            team_names: put(self.team_names, seat.player_id, team_name),
            player_id_counter: if fresh {
                crate::game::next_id(self.player_id_counter)
            } else {
                self.player_id_counter
            },
            api_key_to_player_id: if fresh {
                put(self.api_key_to_player_id, api_key, seat)
            } else {
                self.api_key_to_player_id
            },
            admission: if fresh {
                self.admission.joined()
            } else {
                self.admission
            },
            ..self
        }
    }

    /// The room after a session opened.
    pub open spec fn joined(
        self,
        api_key: Seq<char>,
        team_name: Seq<char>,
        addr: u64,
    ) -> GameActorView {
        if api_key == spectator_key() {
            self.spectator_joined(addr)
        } else {
            self.player_joined(api_key, team_name, addr)
        }
    }

    /// What the opening of a session sets in motion. A spectator is sent the
    /// team names. A player's session takes the place of an older one under
    /// the same key, which is stopped; a fresh player is announced to the
    /// loop; the session learns its player's id if the room let that player
    /// into the game; and everyone is sent the team names.
    pub open spec fn join_outcome(
        self,
        api_key: Seq<char>,
        team_name: Seq<char>,
        addr: u64,
    ) -> JoinOutcomeView {
        if api_key == spectator_key() {
            JoinOutcomeView {
                kicked: None,
                joined: None,
                id: None,
                team_names: self.team_names,
                recipients: seq![addr],
            }
        } else {
            let after = self.player_joined(api_key, team_name, addr);
            JoinOutcomeView {
                kicked: get(self.connections, api_key),
                joined: if self.is_new_player(api_key) {
                    Some(self.player_id_counter)
                } else {
                    None
                },
                id: if self.seat_for(api_key).admitted {
                    Some(self.seat_for(api_key).player_id)
                } else {
                    None
                },
                team_names: after.team_names,
                recipients: after.recipients(),
            }
        }
    }

    /// Whether the closing of a session counts: it is the session that
    /// stands under its key.
    pub open spec fn is_current(self, api_key: Seq<char>, addr: u64) -> bool {
        get(self.connections, api_key) == Some(addr)
    }

    /// The player whose leaving the loop is told of when a session closes.
    pub open spec fn leave_outcome(self, api_key: Seq<char>, addr: u64) -> Option<u32> {
        if api_key != spectator_key() && self.is_current(api_key, addr) {
            match get(self.api_key_to_player_id, api_key) {
                Some(seat) => Some(seat.player_id),
                None => None,
            }
        } else {
            None
        }
    }

    /// The room after a session closed. A spectator's session is dropped.
    /// A player's session is dropped together with the record of its key's
    /// player, if it is the session that stands under the key; the player is
    /// counted out if the room had let it into the game.
    pub open spec fn left(self, api_key: Seq<char>, addr: u64) -> GameActorView {
        if api_key == spectator_key() {
            GameActorView { spectators: self.spectators.filter(not_session(addr)), ..self }
        } else if self.is_current(api_key, addr) {
            GameActorView {
                connections: cut(self.connections, api_key),
                api_key_to_player_id: cut(self.api_key_to_player_id, api_key),
                admission: match get(self.api_key_to_player_id, api_key) {
                    Some(seat) => if seat.admitted {
                        self.admission.left()
                    } else {
                        self.admission
                    },
                    None => self.admission,
                },
                ..self
            }
        } else {
            self
        }
    }

    /// What becomes of a command of the session with the key `api_key`: it
    /// goes to the loop under the key's player, or nowhere if the key has
    /// none.
    pub open spec fn route(self, api_key: Seq<char>, cmd: crate::models::GameCommand) -> Option<
        GameLoopCommand,
    > {
        match get(self.api_key_to_player_id, api_key) {
            Some(seat) => Some(GameLoopCommand::GameCommand(seat.player_id, cmd)),
            None => None,
        }
    }
}

/// In a room with a limit, no more keys than the limit stand for a player
/// that was let into the game; only a session of such a key is told an id.
pub proof fn lemma_ids_within_the_limit(
    v: GameActorView,
    api_key: Seq<char>,
    team: Seq<char>,
    addr: u64,
)
    requires
        v.wf(),
        v.admission.max_players > 0,
    ensures
        seated(v.api_key_to_player_id) <= v.admission.max_players,
        v.join_outcome(api_key, team, addr).id.is_some() ==> v.seat_for(api_key).admitted,
        v.join_outcome(api_key, team, addr).id.is_some() && v.is_new_player(api_key)
            ==> v.admission.admits(),
{
}

/// The fields under which the store keeps a player's key and team name.
pub open spec fn player_fields(api_key: Seq<char>, team_name: Seq<char>) -> Seq<
    (Seq<char>, Seq<char>),
> {
    seq![("api_key"@, api_key), ("team_name"@, team_name)]
}

/// The fields of a record, as mathematical values.
pub open spec fn fields_view(fields: Seq<(String, String)>) -> Seq<(Seq<char>, Seq<char>)> {
    fields.map_values(|f: (String, String)| (f.0@, f.1@))
}

/// The record that the store is asked to keep of a player that got an id:
/// its key and its team name.
pub fn player_record(player_id: u32, api_key: &String, team_name: &String) -> (r:
    SetPlayerInfoCommand)
    ensures
        r.player_id == player_id,
        fields_view(r.fields@) == player_fields(api_key@, team_name@),
{
    let mut fields: Vec<(String, String)> = Vec::new();
    fields.push((String::from_str("api_key"), api_key.clone()));
    fields.push((String::from_str("team_name"), team_name.clone()));
    assert(fields_view(fields@) =~= player_fields(api_key@, team_name@));
    SetPlayerInfoCommand { player_id, fields }
}

/// Puts `name` under `id` in a table of team names.
pub fn set_team_name(table: &mut Vec<(u32, String)>, id: u32, name: String)
    ensures
        of_text(final(table)@) == put(of_text(old(table)@), id, name@),
{
    let mut i: usize = 0;
    while i < table.len()
        invariant
            i <= table.len(),
            table@ == old(table)@,
            forall|j: int| 0 <= j < i ==> (#[trigger] of_text(table@)[j]).0 != id,
        decreases table.len() - i,
    {
        if table[i].0 == id {
            proof {
                crate::keyed::lemma_find_some(of_text(table@), id, i as int);
            }
            table.set(i, (id, name));
            assert(of_text(table@) =~= put(of_text(old(table)@), id, name@));
            return ;
        }
        i += 1;
    }
    proof {
        crate::keyed::lemma_find_none(of_text(table@), id);
    }
    table.push((id, name));
    assert(of_text(table@) =~= put(of_text(old(table)@), id, name@));
}

/// A copy of a table of team names.
pub fn copy_team_names(table: &Vec<(u32, String)>) -> (r: Vec<(u32, String)>)
    ensures
        of_text(r@) == of_text(table@),
{
    let mut r: Vec<(u32, String)> = Vec::new();
    let mut i: usize = 0;
    while i < table.len()
        invariant
            i <= table.len(),
            of_text(r@) == of_text(table@.take(i as int)),
        decreases table.len() - i,
    {
        let ghost before = r@;
        let name: String = table[i].1.clone();
        r.push((table[i].0, name));
        proof {
            let entry = (table@[i as int].0, name@);
            assert(of_text(r@) =~= of_text(before).push(entry));
            assert(of_text(table@.take(i + 1)) =~= of_text(table@.take(i as int)).push(entry));
        }
        i += 1;
    }
    assert(table@.take(table.len() as int) =~= table@);
    r
}

impl GameActor {
    /// A room without sessions.
    pub fn new(config: GameConfig, max_players: u32, time_limit_seconds: u32) -> (r: GameActor)
        ensures
            r@ == GameActorView::initial(config, max_players, time_limit_seconds),
            r@.wf(),
    {
        let r = GameActor {
            connections: Vec::new(),
            spectators: Vec::new(),
            team_names: Vec::new(),
            player_id_counter: 0,
            api_key_to_player_id: Vec::new(),
            game_config: config,
            time_limit_seconds,
            admission: Admission::new(max_players),
        };
        assert(by_text(r.connections@) =~= Seq::empty());
        assert(by_text(r.api_key_to_player_id@) =~= Seq::empty());
        assert(of_text(r.team_names@) =~= Seq::empty());
        r
    }

    /// The size of the world of this room's game.
    pub fn game_config(&self) -> (r: GameConfig)
        ensures
            r == self@.game_config,
    {
        self.game_config
    }

    /// The most players this room takes; zero means no limit.
    pub fn max_players(&self) -> (r: u32)
        ensures
            r == self@.admission.max_players,
    {
        self.admission.max_players
    }

    /// The time limit of this room's game, in seconds.
    pub fn time_limit_seconds(&self) -> (r: u32)
        ensures
            r == self@.time_limit_seconds,
    {
        self.time_limit_seconds
    }

    /// The sessions that get every broadcast, snapshots among them.
    pub fn recipients(&self) -> (r: Vec<u64>)
        ensures
            r@ == self@.recipients(),
    {
        let mut r: Vec<u64> = Vec::new();
        let mut i: usize = 0;
        while i < self.connections.len()
            invariant
                i <= self.connections.len(),
                r@ == by_text(self.connections@.take(i as int)).map_values(
                    |e: (Seq<char>, u64)| e.1,
                ),
            decreases self.connections.len() - i,
        {
            r.push(self.connections[i].1);
            assert(r@ =~= by_text(self.connections@.take(i + 1)).map_values(
                |e: (Seq<char>, u64)| e.1,
            ));
            i += 1;
        }
        assert(self.connections@.take(self.connections.len() as int) =~= self.connections@);
        let ghost players = r@;
        let mut k: usize = 0;
        assert(r@ =~= players + self.spectators@.take(0));
        while k < self.spectators.len()
            invariant
                k <= self.spectators.len(),
                r@ == players + self.spectators@.take(k as int),
            decreases self.spectators.len() - k,
        {
            r.push(self.spectators[k]);
            assert(r@ =~= players + self.spectators@.take(k + 1));
            k += 1;
        }
        assert(self.spectators@.take(self.spectators.len() as int) =~= self.spectators@);
        r
    }

    /// Takes note of a session that opened and tells what is to be done.
    pub fn join(&mut self, api_key: String, team_name: String, addr: u64) -> (r: JoinOutcome)
        ensures
            final(self)@ == old(self)@.joined(api_key@, team_name@, addr),
            r@ == old(self)@.join_outcome(api_key@, team_name@, addr),
            old(self)@.wf() ==> final(self)@.wf(),
    {
        proof {
            let v = old(self)@;
            if v.wf() {
                lemma_distinct_kept(v.connections, api_key@, addr);
                lemma_distinct_kept(v.api_key_to_player_id, api_key@, v.seat_for(api_key@));
                lemma_distinct_kept(v.team_names, v.seat_for(api_key@).player_id, team_name@);
                crate::seqs::lemma_filter_push(
                    v.api_key_to_player_id,
                    is_seated(),
                    (api_key@, v.seat_for(api_key@)),
                );
            }
        }
        if api_key == String::from_str("SPECTATOR") {
            let team_names: Vec<(u32, String)> = copy_team_names(&self.team_names);
            let mut known: bool = false;
            let mut i: usize = 0;
            while i < self.spectators.len()
                invariant
                    i <= self.spectators.len(),
                    *self == *old(self),
                    known == exists|k: int| 0 <= k < i && self.spectators@[k] == addr,
                decreases self.spectators.len() - i,
            {
                if self.spectators[i] == addr {
                    known = true;
                }
                i += 1;
            }
            assert(known == self.spectators@.contains(addr));
            if !known {
                self.spectators.push(addr);
            }
            let mut recipients: Vec<u64> = Vec::new();
            recipients.push(addr);
            assert(recipients@ =~= seq![addr]);
            JoinOutcome { kicked: None, joined: None, id: None, team_names, recipients }
        } else {
            let known: Option<Seat> = lookup(&self.api_key_to_player_id, &api_key);
            let key_clone: String = api_key.clone();
            let kicked: Option<u64> = insert(&mut self.connections, api_key, addr);
            let mut joined: Option<u32> = None;
            let seat: Seat = match known {
                Some(seat) => seat,
                None => {
                    // This was the first time this key connected: it gets the
                    // next player id, and the player asks to be let in.
                    let player_id: u32 = self.player_id_counter;
                    self.player_id_counter = if player_id == u32::MAX {
                        0
                    } else {
                        player_id + 1
                    };
                    let admitted: bool = self.admission.join();
                    let seat = Seat { player_id, admitted };
                    insert(&mut self.api_key_to_player_id, key_clone, seat);
                    joined = Some(player_id);
                    seat
                },
            };
            let id: Option<u32> = if seat.admitted {
                Some(seat.player_id)
            } else {
                None
            };
            set_team_name(&mut self.team_names, seat.player_id, team_name);
            let team_names: Vec<(u32, String)> = copy_team_names(&self.team_names);
            let recipients: Vec<u64> = self.recipients();
            JoinOutcome { kicked, joined, id, team_names, recipients }
        }
    }

    /// Takes note of a session that closed. Returns the player whose leaving
    /// is to be queued for the loop, if any.
    pub fn leave(&mut self, api_key: &String, addr: u64) -> (r: Option<u32>)
        ensures
            final(self)@ == old(self)@.left(api_key@, addr),
            r == old(self)@.leave_outcome(api_key@, addr),
            old(self)@.wf() ==> final(self)@.wf(),
    {
        proof {
            let v = old(self)@;
            if v.wf() {
                lemma_distinct_kept(v.connections, api_key@, addr);
                lemma_distinct_kept(
                    v.api_key_to_player_id,
                    api_key@,
                    Seat { player_id: 0, admitted: false },
                );
                crate::seqs::lemma_filter_no_duplicates(v.spectators, not_session(addr));
                match crate::keyed::find(v.api_key_to_player_id, api_key@) {
                    Some(i) => {
                        crate::seqs::lemma_filter_remove_len(
                            v.api_key_to_player_id,
                            is_seated(),
                            i,
                        );
                    },
                    None => {},
                }
            }
        }
        if *api_key == String::from_str("SPECTATOR") {
            let mut kept: Vec<u64> = Vec::new();
            let mut i: usize = 0;
            assert(self.spectators@.take(0) =~= Seq::<u64>::empty());
            while i < self.spectators.len()
                invariant
                    i <= self.spectators.len(),
                    *self == *old(self),
                    kept@ == self.spectators@.take(i as int).filter(not_session(addr)),
                decreases self.spectators.len() - i,
            {
                proof {
                    crate::seqs::lemma_filter_step(self.spectators@, not_session(addr), i as int);
                }
                if self.spectators[i] != addr {
                    kept.push(self.spectators[i]);
                }
                i += 1;
            }
            assert(self.spectators@.take(self.spectators.len() as int) =~= self.spectators@);
            self.spectators = kept;
            None
        } else {
            let current: Option<u64> = lookup(&self.connections, api_key);
            let is_current: bool = match current {
                Some(a) => a == addr,
                None => false,
            };
            if is_current {
                let seat: Option<Seat> = remove(&mut self.api_key_to_player_id, api_key);
                remove(&mut self.connections, api_key);
                match seat {
                    Some(seat) => {
                        if seat.admitted {
                            self.admission.leave();
                        }
                        Some(seat.player_id)
                    },
                    None => None,
                }
            } else {
                None
            }
        }
    }

    /// Takes note of what a socket tells and says what is to be done.
    pub fn handle(&mut self, msg: SocketEvent) -> (r: Outcome)
        ensures
            match msg {
                SocketEvent::Join(api_key, team_name, addr) => {
                    &&& final(self)@ == old(self)@.joined(api_key@, team_name@, addr)
                    &&& r matches Outcome::Joined(o) && o@ == old(self)@.join_outcome(
                        api_key@,
                        team_name@,
                        addr,
                    )
                },
                SocketEvent::Leave(api_key, addr) => {
                    &&& final(self)@ == old(self)@.left(api_key@, addr)
                    &&& r == Outcome::Left(old(self)@.leave_outcome(api_key@, addr))
                },
            },
            old(self)@.wf() ==> final(self)@.wf(),
    {
        match msg {
            SocketEvent::Join(api_key, team_name, addr) => Outcome::Joined(
                self.join(api_key, team_name, addr),
            ),
            SocketEvent::Leave(api_key, addr) => Outcome::Left(self.leave(&api_key, addr)),
        }
    }

    /// Turns a command of a session into a command for the loop, if the
    /// session's key has a player.
    pub fn route(&self, msg: &PlayerGameCommand) -> (r: Option<GameLoopCommand>)
        ensures
            r == self@.route(msg.api_key@, msg.cmd),
    {
        match lookup(&self.api_key_to_player_id, &msg.api_key) {
            Some(seat) => Some(GameLoopCommand::GameCommand(seat.player_id, msg.cmd)),
            None => None,
        }
    }

    /// Turns a command of an administrator into a command for the loop.
    pub fn command(&self, msg: ServerCommand) -> (r: GameLoopCommand)
        ensures
            r == GameLoopCommand::Reset,
    {
        match msg {
            ServerCommand::Reset => GameLoopCommand::Reset,
        }
    }
}

} // verus!

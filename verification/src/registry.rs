//! The registry of rooms: creating them, finding them by token and listing
//! them.

use crate::game::next_id;
use crate::keyed::{
    distinct_keys, find, get, lemma_distinct_kept, lemma_find_none, lemma_find_some,
};
use crate::models::GameConfig;
use crate::outside::{is_alphanumeric, random_text, seeded_rng};
use rand::rngs::StdRng;
use crate::room::GameActor;
use crate::text::{decimal, decimal_spec};
use vstd::prelude::*;
use vstd::string::*;

verus! {

/// Number of characters of a room's token.
pub const TOKEN_LENGTH: usize = 8;

/// How often a registry draws a token before it gives up on finding one
/// that no room has.
pub const TOKEN_ATTEMPTS: usize = 64;

/// A text of [`TOKEN_LENGTH`] letters and digits.
pub open spec fn is_token(token: Seq<char>) -> bool {
    &&& token.len() == TOKEN_LENGTH
    &&& forall|i: int| 0 <= i < token.len() ==> is_alphanumeric(#[trigger] token[i])
}

/// What a room is known by.
#[derive(Debug)]
pub struct RoomDetail {
    pub id: u32,
    pub name: String,
    pub max_players: u32,
    pub time_limit_seconds: u32,
    pub token: String,
}

/// The mathematical value of a [`RoomDetail`].
pub struct RoomDetailView {
    pub id: u32,
    pub name: Seq<char>,
    pub max_players: u32,
    pub time_limit_seconds: u32,
    pub token: Seq<char>,
}

impl View for RoomDetail {
    type V = RoomDetailView;

    open spec fn view(&self) -> RoomDetailView {
        RoomDetailView {
            id: self.id,
            name: self.name@,
            max_players: self.max_players,
            time_limit_seconds: self.time_limit_seconds,
            token: self.token@,
        }
    }
}

/// A single game instance as the registry keeps it.
pub struct Room {
    id: u32,
    name: String,
    max_players: u32,
    time_limit_seconds: u32,
    token: String,
    game_config: GameConfig,
}

impl View for Room {
    type V = RoomDetailView;

    closed spec fn view(&self) -> RoomDetailView {
        RoomDetailView {
            id: self.id,
            name: self.name@,
            max_players: self.max_players,
            time_limit_seconds: self.time_limit_seconds,
            token: self.token@,
        }
    }
}

impl Room {
    /// The size of the world of this room's game.
    pub closed spec fn config(&self) -> GameConfig {
        self.game_config
    }

    /// A room with the world of `config`.
    pub fn new(
        config: &GameConfig,
        id: u32,
        name: String,
        max_players: u32,
        time_limit_seconds: u32,
        token: String,
    ) -> (r: Room)
        ensures
            r@ == (RoomDetailView {
                id,
                name: name@,
                max_players,
                time_limit_seconds,
                token: token@,
            }),
            r.config() == *config,
    {
        let game_cfg = GameConfig { bound_x: config.bound_x, bound_y: config.bound_y };
        Room { id, name, max_players, time_limit_seconds, token, game_config: game_cfg }
    }

    /// What the room is known by.
    pub fn detail(&self) -> (r: RoomDetail)
        ensures
            r@ == self@,
    {
        RoomDetail {
            id: self.id,
            name: self.name.clone(),
            max_players: self.max_players,
            time_limit_seconds: self.time_limit_seconds,
            token: self.token.clone(),
        }
    }
}

/// Asks for a new room.
pub struct CreateRoom {
    pub name: String,
    pub max_players: u32,
    pub time_limit_seconds: u32,
}

/// The answer to [`CreateRoom`]: the room's id in decimal digits, its
/// settings and its token.
#[derive(Debug)]
pub struct RoomCreated {
    pub id: String,
    pub name: String,
    pub max_players: u32,
    pub time_limit_seconds: u32,
    pub token: String,
}

/// The mathematical value of a [`RoomCreated`].
pub struct RoomCreatedView {
    pub id: Seq<char>,
    pub name: Seq<char>,
    pub max_players: u32,
    pub time_limit_seconds: u32,
    pub token: Seq<char>,
}

impl View for RoomCreated {
    type V = RoomCreatedView;

    open spec fn view(&self) -> RoomCreatedView {
        RoomCreatedView {
            id: self.id@,
            name: self.name@,
            max_players: self.max_players,
            time_limit_seconds: self.time_limit_seconds,
            token: self.token@,
        }
    }
}

/// Asks for the room with this token.
pub struct JoinRoom {
    pub room_token: String,
}

/// The answer to [`JoinRoom`]: the id of the room, by which its coordinator
/// is found.
#[derive(Clone, Copy, Debug, PartialEq, Eq, Structural)]
pub struct RoomEntry {
    pub room_id: u32,
}

/// Why a room could not be joined.
#[derive(Clone, Copy, Debug, PartialEq, Eq, Structural)]
pub enum RoomError {
    NotFound,
}

impl RoomError {
    /// The words in which the error is reported.
    pub fn message(&self) -> (r: String)
        ensures
            r@ == "Room not found"@,
    {
        String::from_str("Room not found")
    }
}

/// Asks for the list of rooms.
pub struct ListRooms;

/// The answer to [`ListRooms`].
pub struct RoomList {
    pub rooms: Vec<RoomDetail>,
}

/// Creates and keeps the rooms.
pub struct RoomManagerActor {
    config: GameConfig,
    id_counter: u32,
    rooms: Vec<Room>,
    rng: StdRng,
}

/// The mathematical value of a [`RoomManagerActor`]: its rooms as a table
/// keyed by token.
pub struct RoomManagerView {
    pub config: GameConfig,
    pub id_counter: u32,
    pub rooms: Seq<(Seq<char>, RoomDetailView)>,
}

/// The rooms as a table keyed by token.
pub open spec fn by_token(rooms: Seq<Room>) -> Seq<(Seq<char>, RoomDetailView)> {
    rooms.map_values(|r: Room| (r@.token, r@))
}

/// The values of a sequence of details.
pub open spec fn details(rooms: Seq<RoomDetail>) -> Seq<RoomDetailView> {
    rooms.map_values(|d: RoomDetail| d@)
}

/// The ids never fall from one room to the next.
pub open spec fn sorted_by_id(rooms: Seq<RoomDetailView>) -> bool {
    forall|i: int, j: int| 0 <= i <= j < rooms.len() ==> rooms[i].id <= rooms[j].id
}

impl View for RoomManagerActor {
    type V = RoomManagerView;

    closed spec fn view(&self) -> RoomManagerView {
        RoomManagerView {
            config: self.config,
            id_counter: self.id_counter,
            rooms: by_token(self.rooms@),
        }
    }
}

impl RoomManagerView {
    /// No two rooms share a token.
    pub open spec fn wf(self) -> bool {
        distinct_keys(self.rooms)
    }

    /// No room stands under `token`.
    pub open spec fn token_is_free(self, token: Seq<char>) -> bool {
        get(self.rooms, token).is_none()
    }

    /// What the one who asked for a room with these settings is told, where
    /// the room got this token.
    pub open spec fn answer(
        self,
        name: Seq<char>,
        max_players: u32,
        time_limit_seconds: u32,
        token: Seq<char>,
    ) -> RoomCreatedView {
        RoomCreatedView {
            id: decimal_spec(self.next_room_id() as nat),
            name,
            max_players,
            time_limit_seconds,
            token,
        }
    }

    /// The id that the next room gets.
    pub open spec fn next_room_id(self) -> u32 {
        next_id(self.id_counter)
    }

    /// The registry after a room with these settings was created under a
    /// token that was free: the room gets the next id and comes after the
    /// rooms that were there.
    pub open spec fn created(
        self,
        name: Seq<char>,
        max_players: u32,
        time_limit_seconds: u32,
        token: Seq<char>,
    ) -> RoomManagerView {
        RoomManagerView {
            id_counter: self.next_room_id(),
            rooms: self.rooms.push(
                (
                    token,
                    RoomDetailView {
                        id: self.next_room_id(),
                        name,
                        max_players,
                        time_limit_seconds,
                        token,
                    },
                ),
            ),
            ..self
        }
    }

    /// The registry after a room with these settings was asked for under
    /// `token`: the room is created if the token is free; a token that is
    /// taken leaves the registry as it is.
    pub open spec fn created_with(
        self,
        name: Seq<char>,
        max_players: u32,
        time_limit_seconds: u32,
        token: Seq<char>,
    ) -> RoomManagerView {
        if self.token_is_free(token) {
            self.created(name, max_players, time_limit_seconds, token)
        } else {
            self
        }
    }

    /// What the one who asked for a room under `token` is told: the room,
    /// if the token is free.
    pub open spec fn answer_with(
        self,
        name: Seq<char>,
        max_players: u32,
        time_limit_seconds: u32,
        token: Seq<char>,
    ) -> Option<RoomCreatedView> {
        if self.token_is_free(token) {
            Some(self.answer(name, max_players, time_limit_seconds, token))
        } else {
            None
        }
    }

    /// The token at `i` is the first of `tokens` that is free.
    pub open spec fn is_first_free(self, tokens: Seq<Seq<char>>, i: int) -> bool {
        &&& 0 <= i < tokens.len()
        &&& self.token_is_free(tokens[i])
        &&& forall|j: int| 0 <= j < i ==> !self.token_is_free(#[trigger] tokens[j])
    }

    /// The place of the first of `tokens` that is free, if one is.
    pub open spec fn first_free(self, tokens: Seq<Seq<char>>) -> Option<int> {
        if exists|i: int| self.is_first_free(tokens, i) {
            Some(choose|i: int| self.is_first_free(tokens, i))
        } else {
            None
        }
    }

    /// The registry after a room with these settings was asked for with
    /// `tokens` to choose from: the room is created under the first token
    /// that is free; where none is free, the registry stays as it is.
    pub open spec fn created_from(
        self,
        name: Seq<char>,
        max_players: u32,
        time_limit_seconds: u32,
        tokens: Seq<Seq<char>>,
    ) -> RoomManagerView {
        match self.first_free(tokens) {
            Some(i) => self.created(name, max_players, time_limit_seconds, tokens[i]),
            None => self,
        }
    }

    /// What the one who asked for a room with `tokens` to choose from is
    /// told: the room under the first token that is free, if one is.
    pub open spec fn answer_from(
        self,
        name: Seq<char>,
        max_players: u32,
        time_limit_seconds: u32,
        tokens: Seq<Seq<char>>,
    ) -> Option<RoomCreatedView> {
        match self.first_free(tokens) {
            Some(i) => Some(self.answer(name, max_players, time_limit_seconds, tokens[i])),
            None => None,
        }
    }

    /// `tokens` are what a registry draws for one room: at least one and at
    /// most [`TOKEN_ATTEMPTS`] texts of [`TOKEN_LENGTH`] letters and digits,
    /// each but the last of them taken.
    pub open spec fn drew(self, tokens: Seq<Seq<char>>) -> bool {
        &&& 1 <= tokens.len() <= TOKEN_ATTEMPTS
        &&& forall|i: int| 0 <= i < tokens.len() ==> is_token(#[trigger] tokens[i])
        &&& forall|j: int| 0 <= j < tokens.len() - 1 ==> !self.token_is_free(#[trigger] tokens[j])
    }

    /// The room that stands under `token`, or the error that there is none.
    pub open spec fn entry(self, token: Seq<char>) -> Result<RoomEntry, RoomError> {
        match get(self.rooms, token) {
            Some(room) => Ok(RoomEntry { room_id: room.id }),
            None => Err(RoomError::NotFound),
        }
    }

    /// The rooms in the order in which they are kept.
    pub open spec fn listed(self) -> Seq<RoomDetailView> {
        self.rooms.map_values(|e: (Seq<char>, RoomDetailView)| e.1)
    }
}

/// The texts of a list of tokens.
pub open spec fn texts(tokens: Seq<String>) -> Seq<Seq<char>> {
    tokens.map_values(|t: String| t@)
}

/// What is told of a room, as a mathematical value.
pub open spec fn answer_view(r: Option<RoomCreated>) -> Option<RoomCreatedView> {
    match r {
        Some(room) => Some(room@),
        None => None,
    }
}

/// No two rooms of a registry share a token, however many rooms are
/// created: a registry without rooms has none that do, and creating a room
/// under a token that is free leads to none.
pub proof fn lemma_tokens_stay_unique(
    v: RoomManagerView,
    name: Seq<char>,
    max_players: u32,
    time_limit_seconds: u32,
    token: Seq<char>,
)
    requires
        distinct_keys(v.rooms),
        v.token_is_free(token),
    ensures
        distinct_keys(v.created(name, max_players, time_limit_seconds, token).rooms),
        distinct_keys(Seq::<(Seq<char>, RoomDetailView)>::empty()),
{
    lemma_distinct_kept(
        v.rooms,
        token,
        RoomDetailView { id: v.next_room_id(), name, max_players, time_limit_seconds, token },
    );
}

/// The first free token is what is found.
pub proof fn lemma_first_free(v: RoomManagerView, tokens: Seq<Seq<char>>, i: int)
    requires
        v.is_first_free(tokens, i),
    ensures
        v.first_free(tokens) == Some(i),
{
    let c = choose|c: int| v.is_first_free(tokens, c);
    if c < i {
        assert(!v.token_is_free(tokens[c]));
    } else if i < c {
        assert(!v.token_is_free(tokens[i]));
    }
}

/// Where every token is taken, none is found.
pub proof fn lemma_none_free(v: RoomManagerView, tokens: Seq<Seq<char>>)
    requires
        forall|j: int| 0 <= j < tokens.len() ==> !v.token_is_free(#[trigger] tokens[j]),
    ensures
        v.first_free(tokens).is_none(),
{
}

/// A room under a token that was free comes after the rooms that were
/// there, and each of those is still found under its own token, as it was.
pub proof fn lemma_fresh_token_adds_a_room(
    v: RoomManagerView,
    name: Seq<char>,
    max_players: u32,
    time_limit_seconds: u32,
    token: Seq<char>,
)
    requires
        v.token_is_free(token),
    ensures
        v.created(name, max_players, time_limit_seconds, token).rooms.len() == v.rooms.len() + 1,
        forall|i: int|
            0 <= i < v.rooms.len() ==> #[trigger] v.created(
                name,
                max_players,
                time_limit_seconds,
                token,
            ).rooms[i] == v.rooms[i],
        forall|other: Seq<char>|
            other != token ==> #[trigger] get(
                v.created(name, max_players, time_limit_seconds, token).rooms,
                other,
            ) == get(v.rooms, other),
        v.created(name, max_players, time_limit_seconds, token).entry(token) == Ok::<
            RoomEntry,
            RoomError,
        >(RoomEntry { room_id: v.next_room_id() }),
{
    let after = v.created(name, max_players, time_limit_seconds, token).rooms;
    assert forall|j: int| 0 <= j < v.rooms.len() implies (#[trigger] v.rooms[j]).0 != token by {
        if v.rooms[j].0 == token {
            crate::keyed::lemma_has_first(v.rooms, token, j);
        }
    }
    assert(crate::keyed::is_first_key(after, token, v.rooms.len() as int));
    lemma_find_some(after, token, v.rooms.len() as int);
    assert forall|other: Seq<char>| other != token implies #[trigger] get(after, other) == get(
        v.rooms,
        other,
    ) by {
        match find(v.rooms, other) {
            Some(i) => {
                assert(crate::keyed::is_first_key(v.rooms, other, i));
                assert(crate::keyed::is_first_key(after, other, i));
                lemma_find_some(after, other, i);
            },
            None => {
                assert forall|j: int| 0 <= j < after.len() implies (#[trigger] after[j]).0
                    != other by {
                    if j < v.rooms.len() && v.rooms[j].0 == other {
                        crate::keyed::lemma_has_first(v.rooms, other, j);
                    }
                }
                lemma_find_none(after, other);
            },
        }
    }
}

/// Inserting an element into a sequence adds it to the sequence's multiset.
pub proof fn lemma_insert_multiset<A>(s: Seq<A>, i: int, a: A)
    requires
        0 <= i <= s.len(),
    ensures
        s.insert(i, a).to_multiset() == s.to_multiset().insert(a),
{
    let t = s.insert(i, a);
    assert(t.remove(i) =~= s);
    assert(t[i] == a);
    vstd::seq_lib::to_multiset_remove(t, i);
    t.to_multiset_ensures();
    assert(t.contains(a));
    assert(t.to_multiset() =~= s.to_multiset().insert(a));
}

impl RoomManagerActor {
    /// A registry without rooms, whose tokens come from a generator that
    /// starts from `seed`.
    pub fn new(cfg: GameConfig, seed: u64) -> (r: RoomManagerActor)
        ensures
            r@ == (RoomManagerView { config: cfg, id_counter: 0, rooms: Seq::empty() }),
            r@.wf(),
    {
        let r = RoomManagerActor {
            config: cfg,
            id_counter: 0,
            rooms: Vec::new(),
            rng: seeded_rng(seed),
        };
        assert(by_token(r.rooms@) =~= Seq::empty());
        r
    }

    /// The place of the room under `token`, if there is one.
    fn locate(&self, token: &String) -> (r: Option<usize>)
        ensures
            match r {
                Some(i) => find(self@.rooms, token@) == Some(i as int) && i < self.rooms.len(),
                None => find(self@.rooms, token@).is_none(),
            },
    {
        let mut i: usize = 0;
        while i < self.rooms.len()
            invariant
                i <= self.rooms.len(),
                forall|j: int| 0 <= j < i ==> (#[trigger] by_token(self.rooms@)[j]).0 != token@,
            decreases self.rooms.len() - i,
        {
            if self.rooms[i].token == *token {
                proof {
                    lemma_find_some(by_token(self.rooms@), token@, i as int);
                }
                return Some(i);
            }
            i += 1;
        }
        proof {
            lemma_find_none(by_token(self.rooms@), token@);
        }
        None
    }

    /// Whether no room stands under the token.
    pub fn token_is_free(&self, token: &String) -> (r: bool)
        ensures
            r == self@.token_is_free(token@),
    {
        self.locate(token).is_none()
    }

    /// Creates a room with these settings under the given token, if no room
    /// stands under it. A token that is taken leaves the registry as it is.
    pub fn create_room_with(
        &mut self,
        name: String,
        max_players: u32,
        time_limit_seconds: u32,
        token: String,
    ) -> (r: Option<RoomCreated>)
        ensures
            final(self)@ == old(self)@.created_with(
                name@,
                max_players,
                time_limit_seconds,
                token@,
            ),
            answer_view(r) == old(self)@.answer_with(
                name@,
                max_players,
                time_limit_seconds,
                token@,
            ),
            old(self)@.wf() ==> final(self)@.wf(),
    {
        if !self.token_is_free(&token) {
            return None;
        }
        proof {
            if old(self)@.wf() {
                lemma_tokens_stay_unique(
                    old(self)@,
                    name@,
                    max_players,
                    time_limit_seconds,
                    token@,
                );
            }
        }
        self.id_counter = if self.id_counter == u32::MAX {
            0
        } else {
            self.id_counter + 1
        };
        let new_id: String = decimal(self.id_counter);
        let room: Room = Room::new(
            &self.config,
            self.id_counter,
            name.clone(),
            max_players,
            time_limit_seconds,
            token.clone(),
        );
        self.rooms.push(room);
        assert(by_token(self.rooms@) =~= old(self)@.created(
            name@,
            max_players,
            time_limit_seconds,
            token@,
        ).rooms);
        Some(RoomCreated { id: new_id, name, max_players, time_limit_seconds, token })
    }

    /// Creates a room with these settings under the first of `tokens` that
    /// no room stands under. Where every one of them is taken, no room is
    /// created and the registry stays as it is.
    pub fn create_room_from(
        &mut self,
        name: String,
        max_players: u32,
        time_limit_seconds: u32,
        tokens: &Vec<String>,
    ) -> (r: Option<RoomCreated>)
        ensures
            final(self)@ == old(self)@.created_from(
                name@,
                max_players,
                time_limit_seconds,
                texts(tokens@),
            ),
            answer_view(r) == old(self)@.answer_from(
                name@,
                max_players,
                time_limit_seconds,
                texts(tokens@),
            ),
            old(self)@.wf() ==> final(self)@.wf(),
    {
        let mut i: usize = 0;
        while i < tokens.len()
            invariant
                i <= tokens.len(),
                *self == *old(self),
                forall|j: int| 0 <= j < i ==> !self@.token_is_free(#[trigger] texts(tokens@)[j]),
            decreases tokens.len() - i,
        {
            if self.token_is_free(&tokens[i]) {
                proof {
                    lemma_first_free(self@, texts(tokens@), i as int);
                }
                return self.create_room_with(
                    name,
                    max_players,
                    time_limit_seconds,
                    tokens[i].clone(),
                );
            }
            i += 1;
        }
        proof {
            lemma_none_free(self@, texts(tokens@));
        }
        None
    }

    /// Creates a room with these settings under a random token of
    /// [`TOKEN_LENGTH`] letters and digits that no room has yet. Tokens are
    /// drawn until one is free, and the room is created under that one. Only
    /// after [`TOKEN_ATTEMPTS`] draws of tokens that are taken is no room
    /// created; the registry then stays as it is. A registry without rooms
    /// never fails to create one.
    pub fn create_room(&mut self, name: String, max_players: u32, time_limit_seconds: u32) -> (r:
        Option<RoomCreated>)
        ensures
            exists|tokens: Seq<Seq<char>>|
                {
                    &&& #[trigger] old(self)@.drew(tokens)
                    &&& r.is_none() ==> tokens.len() == TOKEN_ATTEMPTS
                    &&& final(self)@ == old(self)@.created_from(
                        name@,
                        max_players,
                        time_limit_seconds,
                        tokens,
                    )
                    &&& answer_view(r) == old(self)@.answer_from(
                        name@,
                        max_players,
                        time_limit_seconds,
                        tokens,
                    )
                },
            match r {
                Some(room) => {
                    &&& is_token(room@.token)
                    &&& old(self)@.token_is_free(room@.token)
                    &&& final(self)@ == old(self)@.created(
                        name@,
                        max_players,
                        time_limit_seconds,
                        room@.token,
                    )
                    &&& room@ == old(self)@.answer(
                        name@,
                        max_players,
                        time_limit_seconds,
                        room@.token,
                    )
                },
                None => final(self)@ == old(self)@,
            },
            old(self)@.rooms.len() == 0 ==> r.is_some(),
            old(self)@.wf() ==> final(self)@.wf(),
    {
        let mut tokens: Vec<String> = Vec::new();
        let mut found: bool = false;
        while !found && tokens.len() < TOKEN_ATTEMPTS
            invariant
                self@ == old(self)@,
                tokens.len() <= TOKEN_ATTEMPTS,
                forall|i: int| 0 <= i < tokens.len() ==> is_token(#[trigger] texts(tokens@)[i]),
                found ==> tokens.len() >= 1 && self@.is_first_free(
                    texts(tokens@),
                    tokens.len() - 1,
                ),
                !found ==> forall|j: int|
                    0 <= j < tokens.len() ==> !self@.token_is_free(#[trigger] texts(tokens@)[j]),
            decreases (if found { 0int } else { 1int }), TOKEN_ATTEMPTS - tokens.len(),
        {
            let token: String = random_text(&mut self.rng, TOKEN_LENGTH);
            found = self.token_is_free(&token);
            let ghost before = texts(tokens@);
            tokens.push(token);
            assert(texts(tokens@) =~= before.push(token@));
        }
        proof {
            let drawn = texts(tokens@);
            if found {
                lemma_first_free(self@, drawn, tokens.len() - 1);
            } else {
                lemma_none_free(self@, drawn);
            }
            if self@.rooms.len() == 0 {
                crate::keyed::lemma_find_none(self@.rooms, drawn[0]);
            }
            assert(self@.drew(drawn));
        }
        self.create_room_from(name, max_players, time_limit_seconds, &tokens)
    }

    /// Answers a request for a new room.
    pub fn handle_create(&mut self, msg: CreateRoom) -> (r: Option<RoomCreated>)
        ensures
            exists|tokens: Seq<Seq<char>>|
                {
                    &&& #[trigger] old(self)@.drew(tokens)
                    &&& r.is_none() ==> tokens.len() == TOKEN_ATTEMPTS
                    &&& final(self)@ == old(self)@.created_from(
                        msg.name@,
                        msg.max_players,
                        msg.time_limit_seconds,
                        tokens,
                    )
                    &&& answer_view(r) == old(self)@.answer_from(
                        msg.name@,
                        msg.max_players,
                        msg.time_limit_seconds,
                        tokens,
                    )
                },
            match r {
                Some(room) => {
                    &&& is_token(room@.token)
                    &&& old(self)@.token_is_free(room@.token)
                    &&& final(self)@ == old(self)@.created(
                        msg.name@,
                        msg.max_players,
                        msg.time_limit_seconds,
                        room@.token,
                    )
                    &&& room@ == old(self)@.answer(
                        msg.name@,
                        msg.max_players,
                        msg.time_limit_seconds,
                        room@.token,
                    )
                },
                None => final(self)@ == old(self)@,
            },
            old(self)@.rooms.len() == 0 ==> r.is_some(),
            old(self)@.wf() ==> final(self)@.wf(),
    {
        self.create_room(msg.name, msg.max_players, msg.time_limit_seconds)
    }

    /// The room that stands under the token, by its id.
    pub fn join_room(&self, room_token: &String) -> (r: Result<RoomEntry, RoomError>)
        ensures
            r == self@.entry(room_token@),
    {
        match self.locate(room_token) {
            Some(i) => Ok(RoomEntry { room_id: self.rooms[i].id }),
            None => Err(RoomError::NotFound),
        }
    }

    /// Answers a request for the room with a token.
    pub fn handle_join(&self, msg: &JoinRoom) -> (r: Result<RoomEntry, RoomError>)
        ensures
            r == self@.entry(msg.room_token@),
    {
        self.join_room(&msg.room_token)
    }

    /// The coordinator for the room under the token to start with, in a world
    /// of the registry's size.
    pub fn game_actor_for(&self, room_token: &String) -> (r: Option<GameActor>)
        ensures
            match (r, get(self@.rooms, room_token@)) {
                (Some(actor), Some(room)) => actor@ == crate::room::GameActorView::initial(
                    self@.config,
                    room.max_players,
                    room.time_limit_seconds,
                ),
                (None, None) => true,
                _ => false,
            },
    {
        match self.locate(room_token) {
            Some(i) => Some(
                GameActor::new(
                    self.config,
                    self.rooms[i].max_players,
                    self.rooms[i].time_limit_seconds,
                ),
            ),
            None => None,
        }
    }

    /// The rooms by ascending id.
    pub fn list_rooms(&self) -> (r: RoomList)
        ensures
            sorted_by_id(details(r.rooms@)),
            details(r.rooms@).to_multiset() == self@.listed().to_multiset(),
    {
        let mut out: Vec<RoomDetail> = Vec::new();
        let mut i: usize = 0;
        assert(details(out@) =~= Seq::empty());
        assert(by_token(self.rooms@.take(0)).map_values(|e: (Seq<char>, RoomDetailView)| e.1)
            =~= Seq::empty());
        while i < self.rooms.len()
            invariant
                i <= self.rooms.len(),
                sorted_by_id(details(out@)),
                details(out@).to_multiset() == by_token(self.rooms@.take(i as int)).map_values(
                    |e: (Seq<char>, RoomDetailView)| e.1,
                ).to_multiset(),
            decreases self.rooms.len() - i,
        {
            let detail: RoomDetail = self.rooms[i].detail();
            let mut pos: usize = 0;
            while pos < out.len() && out[pos].id <= detail.id
                invariant
                    pos <= out.len(),
                    forall|k: int| 0 <= k < pos ==> (#[trigger] details(out@)[k]).id <= detail.id,
                decreases out.len() - pos,
            {
                pos += 1;
            }
            let ghost before = details(out@);
            assert(pos < out.len() ==> before[pos as int].id > detail.id);
            let ghost listed = by_token(self.rooms@.take(i as int)).map_values(
                |e: (Seq<char>, RoomDetailView)| e.1,
            );
            let ghost value = detail@;
            out.insert(pos, detail);
            proof {
                assert(details(out@) =~= before.insert(pos as int, value));
                lemma_insert_multiset(before, pos as int, value);
                let longer = by_token(self.rooms@.take(i + 1)).map_values(
                    |e: (Seq<char>, RoomDetailView)| e.1,
                );
                assert(longer =~= listed.push(value));
                vstd::seq_lib::to_multiset_build(listed, value);
                assert forall|a: int, b: int| 0 <= a <= b < details(out@).len() implies details(
                    out@,
                )[a].id <= details(out@)[b].id by {
                    let after = details(out@);
                    if a == pos as int {
                        if b > pos as int {
                            assert(after[b] == before[b - 1]);
                            assert(before[pos as int].id > value.id);
                            assert(before[pos as int].id <= before[b - 1].id);
                        }
                    } else if b == pos as int {
                        assert(after[a] == before[a]);
                        assert(before[a].id <= value.id);
                    } else {
                        let a0 = if a < pos as int { a } else { a - 1 };
                        let b0 = if b < pos as int { b } else { b - 1 };
                        assert(after[a] == before[a0]);
                        assert(after[b] == before[b0]);
                    }
                }
            }
            i += 1;
        }
        assert(self.rooms@.take(self.rooms.len() as int) =~= self.rooms@);
        RoomList { rooms: out }
    }

    /// Answers a request for the list of rooms.
    pub fn handle_list(&self, _msg: ListRooms) -> (r: RoomList)
        ensures
            sorted_by_id(details(r.rooms@)),
            details(r.rooms@).to_multiset() == self@.listed().to_multiset(),
    {
        self.list_rooms()
    }
}

} // verus!

//! What the handlers of the web surface decide: who gets a session, which
//! room a request means, and what a scoreboard reply holds.

use crate::config::AppConfig;
use crate::keyed::{find, get, lemma_find_none, lemma_find_some};
use crate::messages::{GetMultiplePlayerInfo, ServerCommand};
use crate::registry::{
    answer_view, details, is_token, sorted_by_id, CreateRoom, RoomCreated, RoomDetail, RoomEntry,
    RoomError, RoomManagerActor, TOKEN_ATTEMPTS,
};
use crate::session::ClientWsActor;
use vstd::prelude::*;
use vstd::string::*;

verus! {

/// What a player's socket request carries.
#[derive(Debug)]
pub struct QueryString {
    pub room_token: String,
    pub key: String,
    pub name: String,
}

/// What a spectator's socket request carries.
#[derive(Debug)]
pub struct SpectatorString {
    pub room_token: String,
}

/// The body of a request for a new room.
#[derive(Debug)]
pub struct RoomCreateRequest {
    pub name: String,
    pub max_players: u32,
    pub time_limit_seconds: u32,
}

/// What the store knows of a player.
#[derive(Debug)]
pub struct PlayerInfo {
    pub api_key: String,
    pub team_name: String,
}

/// The mathematical value of a [`PlayerInfo`].
pub struct PlayerInfoView {
    pub api_key: Seq<char>,
    pub team_name: Seq<char>,
}

impl View for PlayerInfo {
    type V = PlayerInfoView;

    open spec fn view(&self) -> PlayerInfoView {
        PlayerInfoView { api_key: self.api_key@, team_name: self.team_name@ }
    }
}

/// One line of a scoreboard reply.
#[derive(Debug)]
pub struct ScoreboardEntry {
    pub player_id: u32,
    pub total_points: u32,
    pub api_key: String,
    pub team_name: String,
}

/// The mathematical value of a [`ScoreboardEntry`].
pub struct ScoreboardEntryView {
    pub player_id: u32,
    pub total_points: u32,
    pub api_key: Seq<char>,
    pub team_name: Seq<char>,
}

impl View for ScoreboardEntry {
    type V = ScoreboardEntryView;

    open spec fn view(&self) -> ScoreboardEntryView {
        ScoreboardEntryView {
            player_id: self.player_id,
            total_points: self.total_points,
            api_key: self.api_key@,
            team_name: self.team_name@,
        }
    }
}

/// A scoreboard reply.
#[derive(Debug)]
pub struct ScoreboardResponse {
    pub scoreboard: Vec<ScoreboardEntry>,
}

/// Why a request is turned down.
#[derive(Debug)]
pub enum ApiError {
    InvalidApiKey,
    RoomNotFound,
    /// The store could not tell what it knows of the players.
    PlayerInfoFailed,
    /// The store could not tell the scoreboard, for the reason given.
    ScoreboardFailed(String),
}

/// Why a request is turned down, as a mathematical value.
pub enum ApiErrorView {
    InvalidApiKey,
    RoomNotFound,
    PlayerInfoFailed,
    ScoreboardFailed(Seq<char>),
}

impl View for ApiError {
    type V = ApiErrorView;

    open spec fn view(&self) -> ApiErrorView {
        match self {
            ApiError::InvalidApiKey => ApiErrorView::InvalidApiKey,
            ApiError::RoomNotFound => ApiErrorView::RoomNotFound,
            ApiError::PlayerInfoFailed => ApiErrorView::PlayerInfoFailed,
            ApiError::ScoreboardFailed(reason) => ApiErrorView::ScoreboardFailed(reason@),
        }
    }
}

/// The words in which an error is reported.
pub open spec fn message_spec(error: ApiErrorView) -> Seq<char> {
    match error {
        ApiErrorView::InvalidApiKey => "Invalid API Key"@,
        ApiErrorView::RoomNotFound => "Room not found"@,
        ApiErrorView::PlayerInfoFailed => "failed to query player info data"@,
        ApiErrorView::ScoreboardFailed(reason) => "Failed to get room's scoreboard: "@ + reason,
    }
}

impl ApiError {
    /// The words in which the error is reported.
    pub fn message(&self) -> (r: String)
        ensures
            r@ == message_spec(self@),
    {
        match self {
            ApiError::InvalidApiKey => String::from_str("Invalid API Key"),
            ApiError::RoomNotFound => String::from_str("Room not found"),
            ApiError::PlayerInfoFailed => String::from_str("failed to query player info data"),
            ApiError::ScoreboardFailed(reason) => {
                let mut r: String = String::from_str("Failed to get room's scoreboard: ");
                r.append(reason.as_str());
                r
            },
        }
    }
}

/// What a player's socket request leads to: a key that the settings do not
/// accept is turned down first; then the room must exist.
pub open spec fn socket_outcome(
    accepted: bool,
    entry: Result<RoomEntry, RoomError>,
) -> Result<RoomEntry, ApiErrorView> {
    if !accepted {
        Err(ApiErrorView::InvalidApiKey)
    } else {
        match entry {
            Ok(room) => Ok(room),
            Err(_) => Err(ApiErrorView::RoomNotFound),
        }
    }
}

/// Decides on a player's socket request: the room it is for and the session
/// that serves it, or why it is turned down.
pub fn socket_handler(config: &AppConfig, rooms: &RoomManagerActor, query: &QueryString) -> (r:
    Result<(RoomEntry, ClientWsActor), ApiError>)
    ensures
        match r {
            Ok((room, session)) => {
                &&& socket_outcome(config.accepts_spec(query.key@), rooms@.entry(query.room_token@))
                    == Ok::<RoomEntry, ApiErrorView>(room)
                &&& session.key() == query.key@
                &&& session.team() == query.name@
                &&& session.room() == query.room_token@
            },
            Err(e) => socket_outcome(
                config.accepts_spec(query.key@),
                rooms@.entry(query.room_token@),
            ) == Err::<RoomEntry, ApiErrorView>(e@),
        },
{
    if config.accepts(&query.key) {
        match rooms.join_room(&query.room_token) {
            Ok(room) => Ok(
                (
                    room,
                    ClientWsActor::new(
                        query.key.clone(),
                        query.name.clone(),
                        query.room_token.clone(),
                    ),
                ),
            ),
            Err(_) => Err(ApiError::RoomNotFound),
        }
    } else {
        Err(ApiError::InvalidApiKey)
    }
}

/// Decides on a spectator's socket request: the room it is for and the
/// session that serves it, under the spectators' key, or that there is no
/// such room.
pub fn spectate_handler(rooms: &RoomManagerActor, query: &SpectatorString) -> (r: Result<
    (RoomEntry, ClientWsActor),
    ApiError,
>)
    ensures
        match r {
            Ok((room, session)) => {
                &&& rooms@.entry(query.room_token@) == Ok::<RoomEntry, RoomError>(room)
                &&& session.key() == crate::room::spectator_key()
                &&& session.team() == crate::room::spectator_key()
                &&& session.room() == query.room_token@
            },
            Err(e) => rooms@.entry(query.room_token@).is_err() && e@ == ApiErrorView::RoomNotFound,
        },
{
    match rooms.join_room(&query.room_token) {
        Ok(room) => Ok(
            (
                room,
                ClientWsActor::new(
                    String::from_str("SPECTATOR"),
                    String::from_str("SPECTATOR"),
                    query.room_token.clone(),
                ),
            ),
        ),
        Err(_) => Err(ApiError::RoomNotFound),
    }
}

/// Decides on a reset request: the command for the room and the body of the
/// reply.
pub fn reset_handler() -> (r: (ServerCommand, String))
    ensures
        r.0 == ServerCommand::Reset,
        r.1@ == "done"@,
{
    (ServerCommand::Reset, String::from_str("done"))
}

/// Creates the room that a request asks for, under the first token drawn
/// that no room has yet. Returns nothing where every token drawn was taken;
/// the registry then stays as it is.
pub fn create_room_handler(rooms: &mut RoomManagerActor, json: &RoomCreateRequest) -> (r: Option<
    RoomCreated,
>)
    ensures
        exists|tokens: Seq<Seq<char>>|
            {
                &&& #[trigger] old(rooms)@.drew(tokens)
                &&& r.is_none() ==> tokens.len() == TOKEN_ATTEMPTS
                &&& final(rooms)@ == old(rooms)@.created_from(
                    json.name@,
                    json.max_players,
                    json.time_limit_seconds,
                    tokens,
                )
                &&& answer_view(r) == old(rooms)@.answer_from(
                    json.name@,
                    json.max_players,
                    json.time_limit_seconds,
                    tokens,
                )
            },
        match r {
            Some(room) => {
                &&& is_token(room@.token)
                &&& old(rooms)@.token_is_free(room@.token)
                &&& final(rooms)@ == old(rooms)@.created(
                    json.name@,
                    json.max_players,
                    json.time_limit_seconds,
                    room@.token,
                )
                &&& room@ == old(rooms)@.answer(
                    json.name@,
                    json.max_players,
                    json.time_limit_seconds,
                    room@.token,
                )
            },
            None => final(rooms)@ == old(rooms)@,
        },
        old(rooms)@.rooms.len() == 0 ==> r.is_some(),
        old(rooms)@.wf() ==> final(rooms)@.wf(),
{
    rooms.handle_create(
        CreateRoom {
            name: json.name.clone(),
            max_players: json.max_players,
            time_limit_seconds: json.time_limit_seconds,
        },
    )
}

/// The rooms that a list request is answered with, by ascending id.
pub fn list_rooms_handler(rooms: &RoomManagerActor) -> (r: Vec<RoomDetail>)
    ensures
        sorted_by_id(details(r@)),
        details(r@).to_multiset() == rooms@.listed().to_multiset(),
{
    rooms.list_rooms().rooms
}

/// What is known of players, as a table keyed by player id.
pub open spec fn info_table(infos: Seq<(u32, PlayerInfo)>) -> Seq<(u32, PlayerInfoView)> {
    infos.map_values(|e: (u32, PlayerInfo)| (e.0, e.1@))
}

/// The line of a player with these points: with its key and team name where
/// the store knows them, with empty ones where it does not.
pub open spec fn entry_for(
    player_id: u32,
    total_points: u32,
    infos: Seq<(u32, PlayerInfoView)>,
) -> ScoreboardEntryView {
    match get(infos, player_id) {
        Some(info) => ScoreboardEntryView {
            player_id,
            total_points,
            api_key: info.api_key,
            team_name: info.team_name,
        },
        None => ScoreboardEntryView {
            player_id,
            total_points,
            api_key: Seq::empty(),
            team_name: Seq::empty(),
        },
    }
}

/// The lines of a scoreboard, in the order of the scores.
pub open spec fn assembled(
    scores: Seq<(u32, u32)>,
    infos: Seq<(u32, PlayerInfoView)>,
) -> Seq<ScoreboardEntryView> {
    scores.map_values(|e: (u32, u32)| entry_for(e.0, e.1, infos))
}

/// The values of a sequence of scoreboard lines.
pub open spec fn lines(entries: Seq<ScoreboardEntry>) -> Seq<ScoreboardEntryView> {
    entries.map_values(|e: ScoreboardEntry| e@)
}

/// Looks up what the store knows of a player.
fn info_of(infos: &Vec<(u32, PlayerInfo)>, player_id: u32) -> (r: Option<usize>)
    ensures
        match r {
            Some(i) => find(info_table(infos@), player_id) == Some(i as int) && i < infos.len(),
            None => find(info_table(infos@), player_id).is_none(),
        },
{
    let mut i: usize = 0;
    while i < infos.len()
        invariant
            i <= infos.len(),
            forall|j: int| 0 <= j < i ==> (#[trigger] info_table(infos@)[j]).0 != player_id,
        decreases infos.len() - i,
    {
        if infos[i].0 == player_id {
            proof {
                lemma_find_some(info_table(infos@), player_id, i as int);
            }
            return Some(i);
        }
        i += 1;
    }
    proof {
        lemma_find_none(info_table(infos@), player_id);
    }
    None
}

/// Asks the store about the players of a scoreboard, in the order of their
/// scores.
pub fn scoreboard_players(scores: &Vec<(u32, u32)>) -> (r: GetMultiplePlayerInfo)
    ensures
        r.player_ids@ == scores@.map_values(|e: (u32, u32)| e.0),
{
    let mut player_ids: Vec<u32> = Vec::new();
    let mut i: usize = 0;
    while i < scores.len()
        invariant
            i <= scores.len(),
            player_ids@ == scores@.take(i as int).map_values(|e: (u32, u32)| e.0),
        decreases scores.len() - i,
    {
        player_ids.push(scores[i].0);
        assert(player_ids@ =~= scores@.take(i + 1).map_values(|e: (u32, u32)| e.0));
        i += 1;
    }
    assert(scores@.take(scores.len() as int) =~= scores@);
    GetMultiplePlayerInfo { player_ids }
}

/// Passes on what the store told of the players, or reports that it failed.
pub fn get_scoreboard_player_info(result: Result<Vec<(u32, PlayerInfo)>, String>) -> (r: Result<
    Vec<(u32, PlayerInfo)>,
    ApiError,
>)
    ensures
        match (result, r) {
            (Ok(players), Ok(infos)) => infos == players,
            (Err(_), Err(e)) => e@ == ApiErrorView::PlayerInfoFailed,
            _ => false,
        },
{
    match result {
        Ok(players) => Ok(players),
        Err(_) => Err(ApiError::PlayerInfoFailed),
    }
}

/// Puts a scoreboard reply together from what the store told: the scores in
/// the store's order, each with what is known of its player.
pub fn get_room_scoreboard(
    scoreboard: Result<Vec<(u32, u32)>, String>,
    player_info: Result<Vec<(u32, PlayerInfo)>, String>,
) -> (r: Result<ScoreboardResponse, ApiError>)
    ensures
        match scoreboard {
            Err(reason) => r matches Err(e) && e@ == ApiErrorView::ScoreboardFailed(reason@),
            Ok(scores) => match player_info {
                Err(_) => r matches Err(e) && e@ == ApiErrorView::PlayerInfoFailed,
                Ok(infos) => r matches Ok(response) && lines(response.scoreboard@) == assembled(
                    scores@,
                    info_table(infos@),
                ),
            },
        },
{
    match scoreboard {
        Err(reason) => Err(ApiError::ScoreboardFailed(reason)),
        Ok(scores) => {
            match get_scoreboard_player_info(player_info) {
                Err(e) => Err(e),
                Ok(infos) => {
                    let mut entries: Vec<ScoreboardEntry> = Vec::new();
                    let mut i: usize = 0;
                    assert(lines(entries@) =~= assembled(scores@.take(0), info_table(infos@)));
                    while i < scores.len()
                        invariant
                            i <= scores.len(),
                            lines(entries@) == assembled(
                                scores@.take(i as int),
                                info_table(infos@),
                            ),
                        decreases scores.len() - i,
                    {
                        let player_id: u32 = scores[i].0;
                        let total_points: u32 = scores[i].1;
                        let ghost before = lines(entries@);
                        let entry: ScoreboardEntry = match info_of(&infos, player_id) {
                            Some(k) => ScoreboardEntry {
                                player_id,
                                total_points,
                                api_key: infos[k].1.api_key.clone(),
                                team_name: infos[k].1.team_name.clone(),
                            },
                            None => {
                                let api_key: String = String::new();
                                let team_name: String = String::new();
                                ScoreboardEntry { player_id, total_points, api_key, team_name }
                            },
                        };
                        assert(entry@ == entry_for(player_id, total_points, info_table(infos@)));
                        entries.push(entry);
                        proof {
                            assert(lines(entries@) =~= before.push(
                                entry_for(player_id, total_points, info_table(infos@)),
                            ));
                            assert(assembled(scores@.take(i + 1), info_table(infos@)) =~= assembled(
                                scores@.take(i as int),
                                info_table(infos@),
                            ).push(entry_for(player_id, total_points, info_table(infos@))));
                        }
                        i += 1;
                    }
                    assert(scores@.take(scores.len() as int) =~= scores@);
                    Ok(ScoreboardResponse { scoreboard: entries })
                },
            }
        },
    }
}

} // verus!

//! The messages that the parts of the server hand to one another.

use crate::models::GameCommand;
use std::collections::HashMap;
use vstd::prelude::*;

verus! {

/// A command as a session hands it to its room: the sender's key and what
/// it asks for.
#[derive(Debug)]
pub struct PlayerGameCommand {
    pub api_key: String,
    pub cmd: GameCommand,
}

/// Tells a session to close its socket.
#[derive(Debug)]
pub struct ClientStop {}

/// What an administrator may ask of a room.
#[derive(Clone, Copy, Debug, PartialEq, Eq, Structural)]
pub enum ServerCommand {
    Reset,
}

/// Asks the store to write the scoreboard of a room.
pub struct SetScoreboardCommand {
    pub room_token: String,
    pub scoreboard: HashMap<u32, u32>,
}

/// Asks the store for the scoreboard of the room with this token.
pub struct GetScoreboardCommand(pub String);

/// Asks the store to write the named fields of a player.
pub struct SetPlayerInfoCommand {
    pub player_id: u32,
    pub fields: Vec<(String, String)>,
}

/// Asks the store for what it holds of each of these players.
pub struct GetMultiplePlayerInfo {
    pub player_ids: Vec<u32>,
}

} // verus!

//! The names under which the store keeps what the server hands it.

use crate::text::{decimal, decimal_spec, parse_decimal, parse_spec};
use vstd::prelude::*;
use vstd::string::*;

verus! {

/// The key of the sorted set that holds a room's scoreboard.
pub open spec fn scoreboard_key_spec(room_token: Seq<char>) -> Seq<char> {
    "room:"@ + room_token + ":scoreboard"@
}

/// The key of the sorted set that holds a room's scoreboard.
pub fn scoreboard_key(room_token: &String) -> (r: String)
    ensures
        r@ == scoreboard_key_spec(room_token@),
{
    let mut r: String = String::from_str("room:");
    r.append(room_token.as_str());
    r.append(":scoreboard");
    r
}

/// The key of the hash that holds what is known of a player.
pub open spec fn player_info_key_spec(player_id: u32) -> Seq<char> {
    "player:"@ + decimal_spec(player_id as nat) + ":info"@
}

/// The key of the hash that holds what is known of a player.
pub fn player_info_key(player_id: u32) -> (r: String)
    ensures
        r@ == player_info_key_spec(player_id),
{
    let mut r: String = String::from_str("player:");
    let digits: String = decimal(player_id);
    r.append(digits.as_str());
    r.append(":info");
    r
}

/// The key of the set that holds the keys of a room's players.
pub open spec fn room_players_key_spec(room_token: Seq<char>) -> Seq<char> {
    "room:"@ + room_token + ":players"@
}

/// The key of the set that holds the keys of a room's players.
pub fn room_players_key(room_token: &String) -> (r: String)
    ensures
        r@ == room_players_key_spec(room_token@),
{
    let mut r: String = String::from_str("room:");
    r.append(room_token.as_str());
    r.append(":players");
    r
}

/// The words that confirm that a player's fields were written.
pub fn player_info_reply(player_id: u32) -> (r: String)
    ensures
        r@ == "Fields are set for player_id "@ + decimal_spec(player_id as nat),
{
    let mut r: String = String::from_str("Fields are set for player_id ");
    let digits: String = decimal(player_id);
    r.append(digits.as_str());
    r
}

/// The player id that a member of a scoreboard's sorted set stands for:
/// the number it spells, or zero where it spells none.
pub open spec fn player_id_spec(member: Seq<char>) -> u32 {
    match parse_spec(member) {
        Some(id) => id,
        None => 0,
    }
}

/// Reads a player id from a member of a scoreboard's sorted set.
pub fn player_id_of(member: &String) -> (r: u32)
    ensures
        r == player_id_spec(member@),
{
    match parse_decimal(member.as_str()) {
        Some(id) => id,
        None => 0,
    }
}

} // verus!

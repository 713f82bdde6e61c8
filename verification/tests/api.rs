use tokyo_server::api::{
    create_room_handler, get_room_scoreboard, get_scoreboard_player_info, list_rooms_handler,
    reset_handler, scoreboard_players, socket_handler, spectate_handler, ApiError, PlayerInfo,
    QueryString, RoomCreateRequest, SpectatorString,
};
use tokyo_server::config::AppConfig;
use tokyo_server::messages::{
    ClientStop, GetMultiplePlayerInfo, GetScoreboardCommand, ServerCommand, SetPlayerInfoCommand,
    SetScoreboardCommand,
};
use tokyo_server::models::GameConfig;
use tokyo_server::registry::RoomManagerActor;
use tokyo_server::store::{player_info_key, player_info_reply, room_players_key, scoreboard_key};
use tokyo_server::text::decimal;

fn text(s: &str) -> String {
    s.to_string()
}

fn settings(dev_mode: bool) -> AppConfig {
    AppConfig {
        server_port: None,
        api_keys: vec![text("alpha"), text("beta")],
        dev_mode,
        game_config: GameConfig { bound_x: 1_000_000_000, bound_y: 500_000_000 },
        redis_uri: None,
    }
}

fn rooms() -> RoomManagerActor {
    let mut rooms = RoomManagerActor::new(settings(false).game_config, 1);
    rooms.create_room_with(text("room"), 2, 60, text("tokenAAA"));
    rooms
}

fn query(token: &str, key: &str) -> QueryString {
    QueryString { room_token: text(token), key: text(key), name: text("team") }
}

#[test]
fn settings_have_defaults() {
    let config = settings(false);
    assert_eq!(config.port(), 3000);
    assert_eq!(config.redis_url(), "redis://127.0.0.1/");
    let set = AppConfig {
        server_port: Some(8080),
        redis_uri: Some(text("redis://store/")),
        ..settings(false)
    };
    assert_eq!(set.port(), 8080);
    assert_eq!(set.redis_url(), "redis://store/");
}

#[test]
fn only_known_keys_are_accepted_outside_development() {
    let config = settings(false);
    assert!(config.accepts(&text("alpha")));
    assert!(config.accepts(&text("beta")));
    assert!(!config.accepts(&text("gamma")));
    assert!(!config.accepts(&text("")));
    assert!(settings(true).accepts(&text("gamma")));
}

#[test]
fn a_socket_request_needs_a_good_key_and_a_room() {
    let rooms = rooms();
    let config = settings(false);
    match socket_handler(&config, &rooms, &query("tokenAAA", "alpha")) {
        Ok((room, session)) => {
            assert_eq!(room.room_id, 1);
            assert_eq!(session.api_key(), "alpha");
            assert_eq!(session.room_token(), "tokenAAA");
        },
        Err(e) => panic!("turned down: {:?}", e),
    }
    match socket_handler(&config, &rooms, &query("tokenAAA", "gamma")) {
        Err(e) => {
            assert!(matches!(e, ApiError::InvalidApiKey));
            assert_eq!(e.message(), "Invalid API Key");
        },
        Ok(_) => panic!("a bad key was let in"),
    }
    // The key is looked at before the room.
    assert!(matches!(
        socket_handler(&config, &rooms, &query("nowhere", "gamma")),
        Err(ApiError::InvalidApiKey)
    ));
    match socket_handler(&config, &rooms, &query("nowhere", "alpha")) {
        Err(e) => {
            assert!(matches!(e, ApiError::RoomNotFound));
            assert_eq!(e.message(), "Room not found");
        },
        Ok(_) => panic!("a room that is not there was found"),
    }
    assert!(socket_handler(&settings(true), &rooms, &query("tokenAAA", "gamma")).is_ok());
}

#[test]
fn a_spectator_needs_a_room_only() {
    let rooms = rooms();
    match spectate_handler(&rooms, &SpectatorString { room_token: text("tokenAAA") }) {
        Ok((room, session)) => {
            assert_eq!(room.room_id, 1);
            assert!(session.is_spectator());
        },
        Err(e) => panic!("turned down: {:?}", e),
    }
    assert!(matches!(
        spectate_handler(&rooms, &SpectatorString { room_token: text("nowhere") }),
        Err(ApiError::RoomNotFound)
    ));
}

#[test]
fn rooms_are_created_and_listed_on_request() {
    let mut rooms = rooms();
    let made = create_room_handler(
        &mut rooms,
        &RoomCreateRequest { name: text("second"), max_players: 4, time_limit_seconds: 90 },
    )
    .unwrap();
    assert_eq!(made.token.chars().count(), 8);
    assert!(made.token.chars().all(|c| c.is_ascii_alphanumeric()));
    assert_eq!(made.id, "2");
    assert_eq!(made.name, "second");
    let list = list_rooms_handler(&rooms);
    assert_eq!(list.len(), 2);
    assert_eq!(list[0].id, 1);
    assert_eq!(list[1].id, 2);
    assert_eq!(list[1].token, made.token);
    let (command, body) = reset_handler();
    assert_eq!(command, ServerCommand::Reset);
    assert_eq!(body, "done");
}

#[test]
fn a_scoreboard_reply_keeps_the_order_of_the_scores() {
    let scores = vec![(7, 30), (2, 12), (9, 0)];
    let infos = vec![
        (2, PlayerInfo { api_key: text("k2"), team_name: text("two") }),
        (7, PlayerInfo { api_key: text("k7"), team_name: text("seven") }),
    ];
    let reply = get_room_scoreboard(Ok(scores), Ok(infos)).unwrap();
    assert_eq!(reply.scoreboard.len(), 3);
    assert_eq!(reply.scoreboard[0].player_id, 7);
    assert_eq!(reply.scoreboard[0].total_points, 30);
    assert_eq!(reply.scoreboard[0].api_key, "k7");
    assert_eq!(reply.scoreboard[0].team_name, "seven");
    assert_eq!(reply.scoreboard[1].player_id, 2);
    assert_eq!(reply.scoreboard[1].team_name, "two");
    assert_eq!(reply.scoreboard[2].player_id, 9);
    assert_eq!(reply.scoreboard[2].total_points, 0);
    assert_eq!(reply.scoreboard[2].api_key, "");
    assert_eq!(reply.scoreboard[2].team_name, "");
}

#[test]
fn the_store_is_asked_about_the_players_of_a_scoreboard() {
    let ask = scoreboard_players(&vec![(7, 30), (2, 12), (9, 0)]);
    assert_eq!(ask.player_ids, vec![7, 2, 9]);
    assert!(scoreboard_players(&vec![]).player_ids.is_empty());
}

#[test]
fn failures_of_the_store_are_reported() {
    match get_room_scoreboard(Err(text("connection refused")), Ok(vec![])) {
        Err(e) => assert_eq!(e.message(), "Failed to get room's scoreboard: connection refused"),
        Ok(_) => panic!("a failure was passed over"),
    }
    match get_room_scoreboard(Ok(vec![(1, 1)]), Err(text("gone"))) {
        Err(e) => assert_eq!(e.message(), "failed to query player info data"),
        Ok(_) => panic!("a failure was passed over"),
    }
    assert!(matches!(
        get_scoreboard_player_info(Err(text("gone"))),
        Err(ApiError::PlayerInfoFailed)
    ));
    let passed = get_scoreboard_player_info(Ok(vec![(
        4,
        PlayerInfo { api_key: text("k"), team_name: text("t") },
    )]))
    .unwrap();
    assert_eq!(passed.len(), 1);
    assert_eq!(passed[0].0, 4);
}

#[test]
fn the_store_keeps_things_under_these_names() {
    assert_eq!(scoreboard_key(&text("abc")), "room:abc:scoreboard");
    assert_eq!(scoreboard_key(&text("")), "room::scoreboard");
    assert_eq!(room_players_key(&text("abc")), "room:abc:players");
    assert_eq!(player_info_key(42), "player:42:info");
    assert_eq!(player_info_key(0), "player:0:info");
    assert_eq!(player_info_reply(7), "Fields are set for player_id 7");
}

#[test]
fn numbers_are_written_in_decimal_digits() {
    assert_eq!(decimal(0), "0");
    assert_eq!(decimal(9), "9");
    assert_eq!(decimal(10), "10");
    assert_eq!(decimal(1234567890), "1234567890");
    assert_eq!(decimal(u32::MAX), "4294967295");
    for n in [1u32, 19, 100, 101, 65_535, 4_000_000_000] {
        assert_eq!(decimal(n), n.to_string());
    }
}

#[test]
fn messages_for_the_store_carry_what_they_name() {
    let _stop = ClientStop {};
    let set = SetScoreboardCommand {
        room_token: text("abc"),
        scoreboard: [(1u32, 5u32)].into_iter().collect(),
    };
    assert_eq!(scoreboard_key(&set.room_token), "room:abc:scoreboard");
    assert_eq!(set.scoreboard.get(&1), Some(&5));
    let get = GetScoreboardCommand(text("abc"));
    assert_eq!(get.0, "abc");
    let info = SetPlayerInfoCommand {
        player_id: 3,
        fields: vec![(text("api_key"), text("k")), (text("team_name"), text("t"))],
    };
    assert_eq!(player_info_key(info.player_id), "player:3:info");
    assert_eq!(info.fields.len(), 2);
    let many = GetMultiplePlayerInfo { player_ids: vec![1, 2, 3] };
    assert_eq!(many.player_ids.len(), 3);
}

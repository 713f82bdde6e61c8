use tokyo_server::models::GameConfig;
use tokyo_server::registry::{
    CreateRoom, JoinRoom, ListRooms, RoomEntry, RoomError, RoomManagerActor, TOKEN_LENGTH,
};

fn registry() -> RoomManagerActor {
    RoomManagerActor::new(GameConfig { bound_x: 1_000_000_000, bound_y: 500_000_000 }, 17)
}

fn text(s: &str) -> String {
    s.to_string()
}

#[test]
fn rooms_get_rising_ids_and_random_tokens() {
    let mut rooms = registry();
    let first = rooms.create_room(text("alpha"), 2, 60).unwrap();
    let second = rooms.create_room(text("beta"), 0, 0).unwrap();
    assert_eq!(first.id, "1");
    assert_eq!(first.name, "alpha");
    assert_eq!(first.max_players, 2);
    assert_eq!(first.time_limit_seconds, 60);
    assert_eq!(second.id, "2");
    assert_eq!(TOKEN_LENGTH, 8);
    for token in [&first.token, &second.token] {
        assert_eq!(token.chars().count(), 8);
        assert!(token.chars().all(|c| c.is_ascii_alphanumeric()));
    }
    assert_ne!(first.token, second.token);
    assert_eq!(rooms.join_room(&first.token), Ok(RoomEntry { room_id: 1 }));
    assert_eq!(rooms.join_room(&second.token), Ok(RoomEntry { room_id: 2 }));
}

#[test]
fn the_same_seed_gives_the_same_tokens() {
    let mut a = registry();
    let mut b = registry();
    for _ in 0..5 {
        let one = a.create_room(text("r"), 1, 1).unwrap();
        let other = b.create_room(text("r"), 1, 1).unwrap();
        assert_eq!(one.token, other.token);
    }
}

#[test]
fn an_unknown_token_is_reported() {
    let mut rooms = registry();
    rooms.create_room_with(text("alpha"), 2, 60, text("abcdefgh"));
    assert_eq!(rooms.join_room(&text("nothere1")), Err(RoomError::NotFound));
    assert_eq!(
        rooms.handle_join(&JoinRoom { room_token: text("") }),
        Err(RoomError::NotFound)
    );
    assert_eq!(RoomError::NotFound.message(), "Room not found");
    assert_eq!(
        rooms.handle_join(&JoinRoom { room_token: text("abcdefgh") }),
        Ok(RoomEntry { room_id: 1 })
    );
    assert!(rooms.game_actor_for(&text("abcdefgh")).is_some());
    assert!(rooms.game_actor_for(&text("abcdefgx")).is_none());
}

#[test]
fn rooms_are_listed_by_ascending_id() {
    let mut rooms = registry();
    assert!(rooms.create_room_with(text("one"), 1, 10, text("tokenAAA")).is_some());
    assert!(rooms.create_room_with(text("two"), 2, 20, text("tokenBBB")).is_some());
    assert!(rooms.create_room_with(text("three"), 3, 30, text("tokenCCC")).is_some());
    let list = rooms.handle_list(ListRooms).rooms;
    let ids: Vec<u32> = list.iter().map(|r| r.id).collect();
    assert_eq!(ids, vec![1, 2, 3]);
    assert_eq!(list[2].name, "three");
    assert_eq!(list[2].token, "tokenCCC");
    assert_eq!(list[2].max_players, 3);
    assert_eq!(list[2].time_limit_seconds, 30);
    assert_eq!(rooms.list_rooms().rooms.len(), 3);
}

#[test]
fn a_token_that_is_taken_creates_no_room() {
    let mut rooms = registry();
    let first = rooms.create_room_with(text("one"), 1, 10, text("tokenAAA")).unwrap();
    assert_eq!(first.id, "1");
    assert_eq!(first.token, "tokenAAA");
    assert!(rooms.create_room_with(text("four"), 4, 40, text("tokenAAA")).is_none());
    // The older room stands as it was, and no id was used up.
    assert_eq!(rooms.join_room(&text("tokenAAA")), Ok(RoomEntry { room_id: 1 }));
    let list = rooms.list_rooms().rooms;
    assert_eq!(list.len(), 1);
    assert_eq!(list[0].name, "one");
    assert_eq!(rooms.create_room_with(text("two"), 2, 20, text("tokenBBB")).unwrap().id, "2");
}

#[test]
fn a_room_is_created_under_the_first_token_that_is_free() {
    let mut rooms = registry();
    rooms.create_room_with(text("one"), 1, 10, text("tokenAAA"));
    rooms.create_room_with(text("two"), 2, 20, text("tokenBBB"));
    let drawn = vec![text("tokenBBB"), text("tokenAAA"), text("tokenCCC"), text("tokenDDD")];
    let made = rooms.create_room_from(text("three"), 3, 30, &drawn).unwrap();
    assert_eq!(made.token, "tokenCCC");
    assert_eq!(made.id, "3");
    assert_eq!(made.name, "three");
    assert_eq!(made.max_players, 3);
    assert_eq!(made.time_limit_seconds, 30);
    assert_eq!(rooms.join_room(&text("tokenCCC")), Ok(RoomEntry { room_id: 3 }));
    assert_eq!(rooms.join_room(&text("tokenDDD")), Err(RoomError::NotFound));
    // Where every token is taken, nothing happens.
    let taken = vec![text("tokenAAA"), text("tokenCCC")];
    assert!(rooms.create_room_from(text("four"), 4, 40, &taken).is_none());
    assert!(rooms.create_room_from(text("four"), 4, 40, &vec![]).is_none());
    assert_eq!(rooms.list_rooms().rooms.len(), 3);
    assert_eq!(rooms.create_room_from(text("four"), 4, 40, &vec![text("x")]).unwrap().id, "4");
}

#[test]
fn a_request_creates_a_room() {
    let mut rooms = registry();
    let made = rooms
        .handle_create(CreateRoom { name: text("gamma"), max_players: 5, time_limit_seconds: 300 })
        .unwrap();
    assert_eq!(made.id, "1");
    assert_eq!(made.name, "gamma");
    assert_eq!(made.max_players, 5);
    assert_eq!(made.time_limit_seconds, 300);
    let actor = rooms.game_actor_for(&made.token).unwrap();
    assert_eq!(actor.max_players(), 5);
    assert_eq!(actor.time_limit_seconds(), 300);
    assert_eq!(actor.game_config().bound_y, 500_000_000);
}

#[test]
fn a_new_room_gets_a_token_that_no_room_has() {
    let mut rooms = registry();
    let mut tokens = Vec::new();
    for round in 0..200 {
        assert!(rooms.token_is_free(&text("nothere1")));
        let made = rooms.create_room(text("r"), 1, 1).unwrap();
        assert!(!tokens.contains(&made.token));
        assert!(!rooms.token_is_free(&made.token));
        tokens.push(made.token);
        assert_eq!(rooms.list_rooms().rooms.len(), round + 1);
    }
    // Every earlier room is still found under its own token.
    for (at, token) in tokens.iter().enumerate() {
        assert_eq!(rooms.join_room(token), Ok(RoomEntry { room_id: at as u32 + 1 }));
    }
}

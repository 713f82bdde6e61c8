use tokyo_server::game_loop::GameLoopCommand;
use tokyo_server::messages::{PlayerGameCommand, ServerCommand};
use tokyo_server::models::{GameCommand, GameConfig};
use tokyo_server::room::{player_record, GameActor, Outcome, SocketEvent};

fn room(max_players: u32) -> GameActor {
    GameActor::new(GameConfig { bound_x: 1_000_000_000, bound_y: 500_000_000 }, max_players, 60)
}

fn text(s: &str) -> String {
    s.to_string()
}

#[test]
fn the_first_join_gets_id_zero_and_then_the_team_names() {
    let mut room = room(1);
    let outcome = room.join(text("k"), text("t"), 11);
    assert_eq!(outcome.kicked, None);
    assert_eq!(outcome.joined, Some(0));
    assert_eq!(outcome.id, Some(0));
    assert_eq!(outcome.team_names, vec![(0, text("t"))]);
    assert_eq!(outcome.recipients, vec![11]);
    assert_eq!(room.recipients(), vec![11]);
    assert_eq!(room.max_players(), 1);
    assert_eq!(room.time_limit_seconds(), 60);
}

#[test]
fn each_new_key_gets_the_next_id() {
    let mut room = room(3);
    assert_eq!(room.join(text("a"), text("A"), 1).id, Some(0));
    assert_eq!(room.join(text("b"), text("B"), 2).id, Some(1));
    let third = room.join(text("c"), text("C"), 3);
    assert_eq!(third.id, Some(2));
    assert_eq!(third.joined, Some(2));
    assert_eq!(third.team_names, vec![(0, text("A")), (1, text("B")), (2, text("C"))]);
    assert_eq!(third.recipients, vec![1, 2, 3]);
}

#[test]
fn a_full_room_withholds_the_id_only() {
    let mut room = room(2);
    assert_eq!(room.join(text("a"), text("A"), 1).id, Some(0));
    assert_eq!(room.join(text("b"), text("B"), 2).id, Some(1));
    let late = room.join(text("c"), text("C"), 3);
    // The key gets the next player, who is announced to the loop, but the
    // session is not told an id.
    assert_eq!(late.id, None);
    assert_eq!(late.joined, Some(2));
    assert_eq!(late.kicked, None);
    assert_eq!(late.team_names, vec![(0, text("A")), (1, text("B")), (2, text("C"))]);
    // The session stays open and hears what everyone hears.
    assert_eq!(late.recipients, vec![1, 2, 3]);
    // Its commands go to the loop under its player.
    let cmd = PlayerGameCommand { api_key: text("c"), cmd: GameCommand::Fire };
    assert_eq!(room.route(&cmd), Some(GameLoopCommand::GameCommand(2, GameCommand::Fire)));
    // A second session of the key stands for the same player and learns no
    // id either.
    let again = room.join(text("c"), text("C2"), 4);
    assert_eq!(again.kicked, Some(3));
    assert_eq!(again.joined, None);
    assert_eq!(again.id, None);
    assert_eq!(again.team_names, vec![(0, text("A")), (1, text("B")), (2, text("C2"))]);
    // The loop is told when it leaves.
    assert_eq!(room.leave(&text("c"), 4), Some(2));
    assert_eq!(room.recipients(), vec![1, 2]);
    // The next key gets the next id.
    assert_eq!(room.join(text("d"), text("D"), 5).joined, Some(3));
}

#[test]
fn a_room_that_has_started_lets_no_one_in() {
    let mut room = room(1);
    assert_eq!(room.join(text("a"), text("A"), 1).id, Some(0));
    // The second key is turned away; the loop hears of its player all the
    // same, when it joins and when it leaves.
    let late = room.join(text("b"), text("B"), 2);
    assert_eq!((late.joined, late.id), (Some(1), None));
    assert_eq!(room.leave(&text("b"), 2), Some(1));
    assert_eq!(room.leave(&text("a"), 1), Some(0));
    // The room is empty, but its game has started.
    let after = room.join(text("c"), text("C"), 3);
    assert_eq!((after.joined, after.id), (Some(2), None));
}

#[test]
fn a_second_session_of_a_key_takes_the_place_of_the_first() {
    let mut room = room(2);
    room.join(text("a"), text("A"), 1);
    room.join(text("b"), text("B"), 2);
    let again = room.join(text("a"), text("A2"), 7);
    assert_eq!(again.kicked, Some(1));
    assert_eq!(again.joined, None);
    assert_eq!(again.id, Some(0));
    assert_eq!(again.team_names, vec![(0, text("A2")), (1, text("B"))]);
    assert_eq!(again.recipients, vec![7, 2]);
    // The closing of the older session changes nothing.
    assert_eq!(room.leave(&text("a"), 1), None);
    assert_eq!(room.recipients(), vec![7, 2]);
    // The closing of the newer one tells the loop.
    assert_eq!(room.leave(&text("a"), 7), Some(0));
    assert_eq!(room.recipients(), vec![2]);
    assert_eq!(room.leave(&text("a"), 7), None);
}

#[test]
fn a_key_that_left_comes_back_as_a_new_player_while_the_room_is_new() {
    let mut room = room(2);
    assert_eq!(room.join(text("a"), text("A"), 1).id, Some(0));
    assert_eq!(room.leave(&text("a"), 1), Some(0));
    let back = room.join(text("a"), text("A"), 2);
    assert_eq!(back.id, Some(1));
    assert_eq!(back.joined, Some(1));
    assert_eq!(back.team_names, vec![(0, text("A")), (1, text("A"))]);
}

#[test]
fn spectators_get_team_names_and_no_id() {
    let mut room = room(1);
    room.join(text("a"), text("A"), 1);
    let watch = room.join(text("SPECTATOR"), text("SPECTATOR"), 50);
    assert_eq!(watch.id, None);
    assert_eq!(watch.joined, None);
    assert_eq!(watch.kicked, None);
    assert_eq!(watch.team_names, vec![(0, text("A"))]);
    assert_eq!(watch.recipients, vec![50]);
    room.join(text("SPECTATOR"), text("SPECTATOR"), 51);
    room.join(text("SPECTATOR"), text("SPECTATOR"), 50);
    assert_eq!(room.recipients(), vec![1, 50, 51]);
    assert_eq!(room.leave(&text("SPECTATOR"), 50), None);
    assert_eq!(room.recipients(), vec![1, 51]);
    // A player's join reaches the spectators too.
    let mut open = self::room(0);
    open.join(text("SPECTATOR"), text("x"), 9);
    assert_eq!(open.join(text("a"), text("A"), 1).recipients, vec![1, 9]);
}

#[test]
fn commands_go_to_the_loop_under_the_players_id() {
    let mut room = room(2);
    room.join(text("a"), text("A"), 1);
    room.join(text("b"), text("B"), 2);
    let cmd = PlayerGameCommand { api_key: text("b"), cmd: GameCommand::Throttle(500_000) };
    assert_eq!(
        room.route(&cmd),
        Some(GameLoopCommand::GameCommand(1, GameCommand::Throttle(500_000)))
    );
    let unknown = PlayerGameCommand { api_key: text("zz"), cmd: GameCommand::Fire };
    assert_eq!(room.route(&unknown), None);
    assert_eq!(room.command(ServerCommand::Reset), GameLoopCommand::Reset);
}

#[test]
fn events_of_sockets_are_handled_as_joins_and_leaves() {
    let mut room = room(2);
    match room.handle(SocketEvent::Join(text("a"), text("A"), 4)) {
        Outcome::Joined(o) => {
            assert_eq!(o.id, Some(0));
            assert_eq!(o.recipients, vec![4]);
        },
        Outcome::Left(_) => panic!("a join is no leave"),
    }
    match room.handle(SocketEvent::Leave(text("a"), 4)) {
        Outcome::Left(id) => assert_eq!(id, Some(0)),
        Outcome::Joined(_) => panic!("a leave is no join"),
    }
    assert_eq!(room.game_config().bound_x, 1_000_000_000);
}

#[test]
fn the_store_is_told_a_players_key_and_team_name() {
    let record = player_record(7, &text("key"), &text("team"));
    assert_eq!(record.player_id, 7);
    assert_eq!(
        record.fields,
        vec![(text("api_key"), text("key")), (text("team_name"), text("team"))]
    );
}

#[test]
fn no_more_sessions_than_the_limit_are_told_an_id() {
    for limit in 1..6u32 {
        let mut room = room(limit);
        let mut told = 0;
        let mut announced = 0;
        for n in 0..limit + 3 {
            let outcome = room.join(format!("key{}", n), text("t"), u64::from(n));
            if outcome.id.is_some() {
                told += 1;
            }
            if outcome.joined == Some(n) {
                announced += 1;
            }
            // The first `limit` keys are told their ids; the next one is not.
            assert_eq!(outcome.id.is_some(), n < limit);
        }
        assert_eq!(told, limit);
        assert_eq!(announced, limit + 3);
    }
}

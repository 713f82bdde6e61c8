use tokyo_server::clock::TICK_MICROS;
use tokyo_server::game_loop::{GameLoop, GameLoopCommand};
use tokyo_server::lifecycle::{
    can_add_player, can_start_game, will_end_game, Admission, GameStatus,
};
use tokyo_server::models::{GameCommand, GameConfig, PLAYER_RADIUS};

const U: i64 = 1_000_000;
const D: u64 = 1_000_000;

fn config() -> GameConfig {
    GameConfig { bound_x: 1000 * U, bound_y: 500 * U }
}

#[test]
fn a_new_room_takes_players_while_it_has_room() {
    assert!(can_add_player(&GameStatus::New, 2, 0));
    assert!(can_add_player(&GameStatus::New, 2, 1));
    assert!(!can_add_player(&GameStatus::New, 2, 2));
    assert!(can_add_player(&GameStatus::New, 0, 0));
    assert!(can_add_player(&GameStatus::New, 0, 17));
    assert!(!can_add_player(&GameStatus::Running, 2, 0));
    assert!(!can_add_player(&GameStatus::Running, 0, 0));
    assert!(!can_add_player(&GameStatus::Finished, 2, 0));
    assert!(!can_add_player(&GameStatus::Finished, 0, 0));
}

#[test]
fn a_new_room_starts_when_it_is_full() {
    assert!(!can_start_game(&GameStatus::New, 2, 1));
    assert!(can_start_game(&GameStatus::New, 2, 2));
    assert!(can_start_game(&GameStatus::New, 0, 1));
    assert!(!can_start_game(&GameStatus::Running, 2, 2));
    assert!(!can_start_game(&GameStatus::Finished, 2, 2));
}

#[test]
fn a_running_game_with_a_limit_ends_when_its_time_is_up() {
    assert!(!will_end_game(&GameStatus::Running, 2, Some(5_000), 4_999));
    assert!(will_end_game(&GameStatus::Running, 2, Some(5_000), 5_000));
    assert!(will_end_game(&GameStatus::Running, 2, Some(5_000), 9_000));
    assert!(!will_end_game(&GameStatus::Running, 2, None, 9_000));
    assert!(!will_end_game(&GameStatus::Running, 0, Some(5_000), 9_000));
    assert!(!will_end_game(&GameStatus::New, 2, Some(5_000), 9_000));
    assert!(!will_end_game(&GameStatus::Finished, 2, Some(5_000), 9_000));
}

#[test]
fn only_as_many_players_as_the_limit_are_let_in() {
    let mut room = Admission::new(3);
    let mut let_in = 0;
    for _ in 0..10 {
        if room.join() {
            let_in += 1;
        }
    }
    assert_eq!(let_in, 3);
    assert_eq!(room.status, GameStatus::Running);
    assert_eq!(room.num_players, 3);
    room.leave();
    assert_eq!(room.num_players, 2);
    assert!(!room.join());
}

#[test]
fn a_player_that_leaves_a_new_room_makes_room() {
    let mut room = Admission::new(2);
    assert!(room.join());
    room.leave();
    room.leave();
    assert_eq!(room.num_players, 0);
    assert!(room.join());
    assert_eq!(room.status, GameStatus::New);
    assert!(room.join());
    assert_eq!(room.status, GameStatus::Running);
}

#[test]
fn a_room_without_a_limit_starts_with_its_first_player() {
    let mut room = Admission::new(0);
    assert!(room.join());
    assert_eq!(room.status, GameStatus::Running);
    assert!(!room.join());
}

#[test]
fn the_loop_starts_the_game_when_the_room_is_full() {
    let mut game_loop = GameLoop::new(config(), 2, 60, 1_000, 3);
    assert_eq!(game_loop.status(), GameStatus::New);
    game_loop.handle_with(GameLoopCommand::PlayerJoined(0), 1_000, &vec![90 * D, 90 * D]);
    assert_eq!(game_loop.status(), GameStatus::New);
    assert_eq!(game_loop.num_players(), 1);
    assert_eq!(game_loop.game_over_at(), None);
    // Commands do not count before the game runs.
    game_loop.handle_with(GameLoopCommand::GameCommand(0, GameCommand::Fire), 1_100, &vec![]);
    assert_eq!(game_loop.state().bullets.len(), 0);
    // Nor does the loop tick.
    assert!(!game_loop.turn_with(1_200, &vec![]).ticked);
    game_loop.handle_with(GameLoopCommand::PlayerJoined(1), 2_000, &vec![300 * D, 90 * D]);
    assert_eq!(game_loop.status(), GameStatus::Running);
    assert_eq!(game_loop.game_over_at(), Some(62_000));
    assert_eq!(game_loop.state().players.len(), 2);
    assert_eq!(game_loop.state().players[1].x, PLAYER_RADIUS + 300 * U);
    // A third player is turned away.
    game_loop.handle_with(GameLoopCommand::PlayerJoined(2), 2_500, &vec![600 * D, 90 * D]);
    assert_eq!(game_loop.state().players.len(), 2);
    assert_eq!(game_loop.num_players(), 2);
    game_loop.handle_with(GameLoopCommand::GameCommand(0, GameCommand::Fire), 2_600, &vec![]);
    assert_eq!(game_loop.state().bullets.len(), 1);
    assert!(game_loop.turn_with(2_633, &vec![]).ticked);
    assert_eq!(game_loop.state().bullets[0].x, PLAYER_RADIUS + 90 * U + 5 * U + 9_999_900);
}

#[test]
fn the_game_is_over_when_its_time_is_up() {
    let mut game_loop = GameLoop::new(config(), 2, 5, 0, 3);
    game_loop.handle_with(GameLoopCommand::PlayerJoined(0), 0, &vec![90 * D, 90 * D]);
    game_loop.handle_with(GameLoopCommand::PlayerJoined(1), 100, &vec![300 * D, 90 * D]);
    assert_eq!(game_loop.game_over_at(), Some(5_100));
    let turn = game_loop.turn_with(5_099, &vec![]);
    assert!(turn.ticked && !turn.ended);
    assert_eq!(game_loop.status(), GameStatus::Running);
    let last = game_loop.turn_with(5_100, &vec![]);
    assert!(last.ended && !last.ticked);
    assert_eq!(game_loop.status(), GameStatus::Finished);
    assert_eq!(game_loop.game_over_at(), None);
    let before = game_loop.state().clone();
    game_loop.handle_with(GameLoopCommand::GameCommand(0, GameCommand::Fire), 5_200, &vec![]);
    game_loop.handle_with(
        GameLoopCommand::GameCommand(1, GameCommand::Throttle(U)),
        5_200,
        &vec![],
    );
    let later = game_loop.turn_with(30_000, &vec![]);
    assert!(!later.ended && !later.ticked);
    assert!(!game_loop.turn(60_000).ticked);
    assert_eq!(game_loop.state().players, before.players);
    assert_eq!(game_loop.state().bullets, before.bullets);
    assert_eq!(game_loop.state().scoreboard, before.scoreboard);
    assert_eq!(game_loop.state().items, before.items);
}

#[test]
fn a_room_without_a_limit_runs_on() {
    let mut game_loop = GameLoop::new(config(), 0, 0, 0, 3);
    game_loop.handle(GameLoopCommand::PlayerJoined(0), 0);
    assert_eq!(game_loop.status(), GameStatus::Running);
    assert_eq!(game_loop.game_over_at(), Some(0));
    assert!(game_loop.turn(1_000_000).ticked);
    assert_eq!(game_loop.status(), GameStatus::Running);
}

#[test]
fn the_loop_lets_players_leave_and_resets_the_game() {
    let mut game_loop = GameLoop::new(config(), 2, 60, 0, 3);
    game_loop.handle_with(GameLoopCommand::PlayerJoined(0), 0, &vec![90 * D, 90 * D]);
    game_loop.handle_with(GameLoopCommand::PlayerJoined(1), 0, &vec![300 * D, 90 * D]);
    game_loop.handle_with(GameLoopCommand::GameCommand(0, GameCommand::Fire), 10, &vec![]);
    game_loop.handle_with(GameLoopCommand::Reset, 20, &vec![1, 2, 400 * D, 4]);
    assert_eq!(game_loop.state().bullets.len(), 0);
    assert_eq!(game_loop.state().players.len(), 2);
    assert_eq!(game_loop.state().players[1].x, PLAYER_RADIUS + 400 * U);
    game_loop.handle_with(GameLoopCommand::PlayerLeft(0), 30, &vec![]);
    assert_eq!(game_loop.state().players.len(), 1);
    assert_eq!(game_loop.num_players(), 1);
    assert_eq!(game_loop.status(), GameStatus::Running);
    game_loop.handle_with(GameLoopCommand::PlayerLeft(1), 30, &vec![]);
    game_loop.handle_with(GameLoopCommand::PlayerLeft(1), 30, &vec![]);
    assert_eq!(game_loop.num_players(), 0);
    assert!(game_loop.turn_with(33, &vec![]).ticked);
    assert_eq!(TICK_MICROS, 33_333);
}

#[test]
fn a_leave_of_a_player_that_is_not_in_the_game_is_not_counted() {
    let mut game_loop = GameLoop::new(config(), 1, 60, 0, 3);
    game_loop.handle_with(GameLoopCommand::PlayerJoined(0), 0, &vec![90 * D, 90 * D]);
    game_loop.handle_with(GameLoopCommand::PlayerJoined(1), 0, &vec![300 * D, 90 * D]);
    assert_eq!(game_loop.num_players(), 1);
    assert_eq!(game_loop.state().players.len(), 1);
    game_loop.handle_with(GameLoopCommand::PlayerLeft(1), 10, &vec![]);
    assert_eq!(game_loop.num_players(), 1);
    assert_eq!(game_loop.state().players.len(), 1);
    game_loop.handle_with(GameLoopCommand::PlayerLeft(0), 20, &vec![]);
    assert_eq!(game_loop.num_players(), 0);
    assert_eq!(game_loop.state().players.len(), 0);
    assert!(game_loop.turn_with(33, &vec![]).ticked);
    // In a new room such a leave makes no room for one player too many.
    let mut new_room = GameLoop::new(config(), 2, 60, 0, 3);
    new_room.handle_with(GameLoopCommand::PlayerJoined(0), 0, &vec![90 * D, 90 * D]);
    new_room.handle_with(GameLoopCommand::PlayerLeft(7), 0, &vec![]);
    assert_eq!(new_room.num_players(), 1);
    new_room.handle_with(GameLoopCommand::PlayerJoined(1), 0, &vec![300 * D, 90 * D]);
    assert_eq!(new_room.status(), GameStatus::Running);
    new_room.handle_with(GameLoopCommand::PlayerJoined(2), 0, &vec![600 * D, 90 * D]);
    assert_eq!(new_room.state().players.len(), 2);
    // A dead player is in the game too.
    let mut crowded = GameLoop::new(config(), 2, 60, 0, 3);
    crowded.handle_with(GameLoopCommand::PlayerJoined(0), 0, &vec![90 * D, 90 * D]);
    crowded.handle_with(GameLoopCommand::PlayerJoined(1), 0, &vec![95 * D, 90 * D]);
    crowded.turn_with(33, &vec![]);
    assert_eq!(crowded.state().dead.len(), 2);
    crowded.handle_with(GameLoopCommand::PlayerLeft(1), 40, &vec![]);
    assert_eq!(crowded.num_players(), 1);
}

#[test]
fn the_loop_draws_for_a_join_and_for_a_reset() {
    // Two loops of one seed stay alike whatever commands use no draws.
    let mut a = GameLoop::new(config(), 0, 0, 0, 11);
    let mut b = GameLoop::new(config(), 0, 0, 0, 11);
    a.handle(GameLoopCommand::PlayerJoined(0), 0);
    b.handle(GameLoopCommand::PlayerJoined(0), 0);
    for _ in 0..5 {
        a.handle(GameLoopCommand::GameCommand(0, GameCommand::Throttle(U)), 1);
        a.handle(GameLoopCommand::PlayerLeft(9), 1);
    }
    a.handle(GameLoopCommand::GameCommand(0, GameCommand::Throttle(0)), 1);
    a.handle(GameLoopCommand::Reset, 2);
    b.handle(GameLoopCommand::Reset, 2);
    assert_eq!(a.state().players, b.state().players);
    let p = a.state().players[0];
    assert!(p.radius <= p.x && p.x <= 1000 * U - p.radius);
}

use tokyo_server::clock::TICK_MICROS;
use tokyo_server::game::Game;
use tokyo_server::models::{
    GameCommand, GameConfig, Heading, ItemKind, PlayerState, BULLET_LIMIT, BULLET_RADIUS,
    BULLET_SPEED, ITEM_RADIUS, PLAYER_RADIUS,
};

const U: i64 = 1_000_000;
const D: u64 = 1_000_000;

fn config() -> GameConfig {
    GameConfig { bound_x: 1000 * U, bound_y: 500 * U }
}

/// The draw that puts a fresh player's centre at `at` steps along an axis.
fn draw_for(at: i64) -> u64 {
    (at - PLAYER_RADIUS) as u64
}

fn game_with(players: &[(u32, i64, i64)]) -> Game {
    let mut game = Game::new(config(), 0, 1);
    for (id, x, y) in players {
        game.add_player_at(*id, 0, draw_for(*x), draw_for(*y));
    }
    game
}

#[test]
fn new_game_is_empty() {
    let game = Game::new(config(), 0, 7);
    assert_eq!(game.state().players.len(), 0);
    assert_eq!(game.state().dead.len(), 0);
    assert_eq!(game.state().bullets.len(), 0);
    assert_eq!(game.state().items.len(), 0);
    assert!(game.state().scoreboard.is_empty());
    assert_eq!(game.state().bounds, (1000 * U, 500 * U));
    assert_eq!(game.bounds(), (1000 * U, 500 * U));
}

#[test]
fn the_configured_bounds_are_kept() {
    let small = Game::new(GameConfig { bound_x: 30 * U, bound_y: 12 * U }, 0, 7);
    assert_eq!(small.bounds(), (30 * U, 12 * U));
    assert_eq!(small.state().bounds, (30 * U, 12 * U));
    let wide = Game::new(GameConfig { bound_x: 1_000_000 * U, bound_y: 0 }, 0, 7);
    assert_eq!(wide.bounds(), (1_000_000 * U, 0));
    // Only what cannot be counted in gives way.
    let beyond = Game::new(GameConfig { bound_x: -1, bound_y: i64::MAX }, 0, 7);
    assert_eq!(beyond.bounds(), (0, 1_000_000 * U));
}

#[test]
fn in_a_small_world_everything_is_as_large_as_fits() {
    let mut game = Game::new(GameConfig { bound_x: 30 * U, bound_y: 12 * U }, 0, 7);
    game.add_player_at(0, 0, 5 * D, 77);
    let player = game.state().players[0];
    // Half the smaller bound.
    assert_eq!(player.radius, 6 * U);
    assert_eq!(player.x, 6 * U + 5 * U);
    // Along y only one place is left.
    assert_eq!(player.y, 6 * U);
    // An item of kind 1 on the player: it cannot grow.
    game.tick_with(5_000, TICK_MICROS, &vec![1, 6 * D, 0]);
    assert_eq!(game.state().items.len(), 0);
    assert_eq!(game.state().players[0].radius, 6 * U);
    game.tick_with(10_000, TICK_MICROS, &vec![0, 20 * D, 0]);
    assert_eq!(game.state().items[0].radius, 5 * U);
    assert_eq!(game.state().items[0].x, 25 * U);
    assert_eq!(game.state().items[0].y, 5 * U);
    let mut roomy = Game::new(GameConfig { bound_x: 60 * U, bound_y: 60 * U }, 0, 7);
    roomy.add_player_at(0, 0, 20 * D, 20 * D);
    for round in 0..20u64 {
        roomy.tick_with(5_000 * (round + 1), TICK_MICROS, &vec![1, 25 * D, 25 * D]);
    }
    // Growth stops at half the bound, below the largest radius of 50.
    assert_eq!(roomy.state().players[0].radius, 30 * U);
    assert_eq!((roomy.state().players[0].x, roomy.state().players[0].y), (30 * U, 30 * U));
}

#[test]
fn add_player_puts_a_fresh_player_at_the_drawn_place() {
    let mut game = Game::new(config(), 0, 7);
    game.add_player_at(3, 0, 5, 980 * D + 2);
    let player = game.state().players[0];
    assert_eq!(player.id, 3);
    assert_eq!(player.x, PLAYER_RADIUS + 5);
    // The span along y is 500 - 2 * 10 units and one step; the draw wraps.
    assert_eq!(player.y, PLAYER_RADIUS + (980 * U + 2) % (480 * U + 1));
    assert_eq!(player.radius, PLAYER_RADIUS);
    assert_eq!(player.throttle, 0);
    assert_eq!(player.bullet_limit, BULLET_LIMIT);
    assert_eq!(player.bullet_radius, BULLET_RADIUS);
    assert_eq!(player.bullet_speed, BULLET_SPEED);
    assert_eq!(player.heading, Heading { angle: 0, dx: U, dy: 0 });
}

#[test]
fn random_placement_keeps_players_inside() {
    let mut game = Game::new(config(), 0, 99);
    for id in 0..50 {
        game.add_player(id, 0);
    }
    assert_eq!(game.state().players.len(), 50);
    for p in &game.state().players {
        assert!(p.radius <= p.x && p.x <= 1000 * U - p.radius);
        assert!(p.radius <= p.y && p.y <= 500 * U - p.radius);
    }
}

#[test]
fn join_then_fire_once_and_miss() {
    let mut game = game_with(&[(0, 100 * U, 100 * U)]);
    game.handle_cmd(0, GameCommand::Rotate(Heading::east()));
    game.handle_cmd(0, GameCommand::Fire);
    let mut now: u64 = 0;
    game.tick_with(now, TICK_MICROS, &vec![]);
    assert_eq!(game.state().bullets.len(), 1);
    let bullet = game.state().bullets[0];
    assert_eq!(bullet.player_id, 0);
    // 5 units ahead of the player, then 300 units per second for one tick.
    assert_eq!(bullet.x, 105 * U + 9_999_900);
    assert_eq!(bullet.y, 100 * U);
    for _ in 0..100 {
        now += 33;
        game.tick_with(now, TICK_MICROS, &vec![]);
    }
    assert_eq!(game.state().bullets.len(), 0);
    assert!(game.state().scoreboard.is_empty());
    assert_eq!(game.state().players.len(), 1);
}

#[test]
fn a_bullet_leaves_when_its_centre_is_past_the_bound_by_its_radius() {
    let mut game = game_with(&[(0, 985 * U, 100 * U)]);
    game.handle_cmd(0, GameCommand::Fire);
    // Starts at 990; one tick moves it to just under 1000.
    game.tick_with(0, TICK_MICROS, &vec![]);
    assert_eq!(game.state().bullets.len(), 1);
    game.tick_with(33, TICK_MICROS, &vec![]);
    // Just under 1010, past 1000 + 2.
    assert_eq!(game.state().bullets.len(), 0);
}

#[test]
fn two_players_that_collide_both_die() {
    let mut game = game_with(&[(0, 100 * U, 100 * U), (1, 115 * U, 100 * U)]);
    let now: u64 = 4_000;
    game.tick_with(now, TICK_MICROS, &vec![7, 8, 9, 10]);
    assert_eq!(game.state().players.len(), 0);
    assert_eq!(game.state().dead.len(), 2);
    assert_eq!(game.state().dead[0].player.id, 0);
    assert_eq!(game.state().dead[1].player.id, 1);
    assert_eq!(game.state().dead[0].respawn, now + 3_000);
    assert_eq!(game.state().dead[1].respawn, now + 3_000);
    // The dead wait where their draws put them.
    assert_eq!(game.state().dead[0].player.x, PLAYER_RADIUS + 7);
    assert_eq!(game.state().dead[0].player.y, PLAYER_RADIUS + 8);
    assert_eq!(game.state().dead[1].player.x, PLAYER_RADIUS + 9);
    assert_eq!(game.state().dead[1].player.y, PLAYER_RADIUS + 10);
    assert!(game.state().scoreboard.is_empty());
}

#[test]
fn players_that_only_touch_do_not_collide() {
    // Centres exactly two radii apart.
    let mut game = game_with(&[(0, 100 * U, 100 * U), (1, 120 * U, 100 * U)]);
    game.tick_with(0, TICK_MICROS, &vec![]);
    assert_eq!(game.state().players.len(), 2);
    assert_eq!(game.state().dead.len(), 0);
}

#[test]
fn the_dead_come_back_after_three_seconds() {
    let mut game = game_with(&[(0, 100 * U, 100 * U), (1, 115 * U, 100 * U)]);
    let died: u64 = 1_000;
    game.tick_with(died, TICK_MICROS, &vec![0, 0, 900 * D, 400 * D]);
    assert_eq!(game.state().dead.len(), 2);
    game.tick_with(died + 2_999, TICK_MICROS, &vec![]);
    assert_eq!(game.state().players.len(), 0);
    assert_eq!(game.state().dead.len(), 2);
    game.tick_with(died + 3_000, TICK_MICROS, &vec![]);
    assert_eq!(game.state().players.len(), 2);
    assert_eq!(game.state().dead.len(), 0);
    assert_eq!(game.state().players[0].id, 0);
    assert_eq!(game.state().players[1].id, 1);
}

#[test]
fn a_kill_is_credited_once() {
    let mut game = game_with(&[(0, 100 * U, 100 * U), (1, 130 * U, 100 * U)]);
    game.handle_cmd(0, GameCommand::Fire);
    game.tick_with(0, TICK_MICROS, &vec![]);
    // The bullet is 15 units from the target: no hit yet.
    assert_eq!(game.state().players.len(), 2);
    assert_eq!(game.state().bullets.len(), 1);
    game.tick_with(33, TICK_MICROS, &vec![800 * D, 300 * D]);
    assert_eq!(game.state().players.len(), 1);
    assert_eq!(game.state().players[0].id, 0);
    assert_eq!(game.state().dead.len(), 1);
    assert_eq!(game.state().dead[0].player.id, 1);
    assert_eq!(game.state().dead[0].respawn, 3_033);
    assert_eq!(game.state().bullets.len(), 0);
    assert_eq!(game.state().scoreboard.get(&0), Some(&1));
    assert_eq!(game.state().scoreboard.get(&1), None);
    game.tick_with(66, TICK_MICROS, &vec![]);
    assert_eq!(game.state().scoreboard.get(&0), Some(&1));
}

#[test]
fn a_bullet_does_not_kill_its_owner() {
    let mut game = game_with(&[(0, 100 * U, 100 * U)]);
    game.handle_cmd(0, GameCommand::Fire);
    // The bullet starts 5 units from the centre of a player of radius 10.
    assert_eq!(game.state().bullets[0].x, 105 * U);
    game.tick_with(0, 1, &vec![]);
    assert_eq!(game.state().players.len(), 1);
    assert_eq!(game.state().dead.len(), 0);
    assert_eq!(game.state().bullets.len(), 1);
    assert!(game.state().scoreboard.is_empty());
}

#[test]
fn one_bullet_kills_every_player_it_touches() {
    // Two targets one unit apart in y would collide with each other first, so
    // they stand 21 units apart and the bullet passes between them.
    let mut game = game_with(&[
        (0, 100 * U, 100 * U),
        (1, 130 * U, 1105 * U / 10),
        (2, 130 * U, 895 * U / 10),
    ]);
    game.handle_cmd(0, GameCommand::Fire);
    game.tick_with(0, TICK_MICROS, &vec![]);
    game.tick_with(33, TICK_MICROS, &vec![]);
    assert_eq!(game.state().players.len(), 1);
    assert_eq!(game.state().dead.len(), 2);
    assert_eq!(game.state().bullets.len(), 0);
    assert_eq!(game.state().scoreboard.get(&0), Some(&2));
}

#[test]
fn bullets_of_different_ids_that_meet_are_both_gone() {
    let mut game = game_with(&[(0, 100 * U, 100 * U), (1, 100 * U, 200 * U)]);
    game.handle_cmd(0, GameCommand::Fire);
    game.handle_cmd(0, GameCommand::Fire);
    game.handle_cmd(1, GameCommand::Fire);
    assert_eq!(game.state().bullets.len(), 3);
    game.tick_with(0, TICK_MICROS, &vec![]);
    // The two bullets of player 0 share a place; the third is far away.
    assert_eq!(game.state().bullets.len(), 1);
    assert_eq!(game.state().bullets[0].player_id, 1);
}

#[test]
fn survival_is_rewarded_every_ten_seconds_where_two_are_alive() {
    let mut game = game_with(&[(0, 100 * U, 100 * U), (1, 300 * U, 100 * U)]);
    game.tick_with(9_999, TICK_MICROS, &vec![]);
    assert!(game.state().scoreboard.get(&0).is_none());
    game.tick_with(10_000, TICK_MICROS, &vec![]);
    assert_eq!(game.state().scoreboard.get(&0), Some(&1));
    assert_eq!(game.state().scoreboard.get(&1), Some(&1));
    game.tick_with(19_999, TICK_MICROS, &vec![]);
    assert_eq!(game.state().scoreboard.get(&0), Some(&1));
    game.tick_with(20_000, TICK_MICROS, &vec![]);
    assert_eq!(game.state().scoreboard.get(&0), Some(&2));
    assert_eq!(game.state().scoreboard.get(&1), Some(&2));
}

#[test]
fn a_lone_player_gets_no_survival_reward() {
    let mut game = game_with(&[(0, 100 * U, 100 * U)]);
    game.tick_with(10_000, TICK_MICROS, &vec![]);
    game.tick_with(20_000, TICK_MICROS, &vec![]);
    assert!(game.state().scoreboard.is_empty());
}

#[test]
fn the_scoreboard_never_falls_over_a_tick() {
    let mut game = game_with(&[(0, 100 * U, 100 * U), (1, 300 * U, 100 * U)]);
    let mut last = (0u32, 0u32);
    let mut now: u64 = 0;
    for _ in 0..40 {
        now += 1_000;
        game.handle_cmd(0, GameCommand::Fire);
        game.tick(now, TICK_MICROS);
        let score = (
            *game.state().scoreboard.get(&0).unwrap_or(&0),
            *game.state().scoreboard.get(&1).unwrap_or(&0),
        );
        assert!(score.0 >= last.0 && score.1 >= last.1);
        last = score;
    }
    assert!(last.0 >= 3);
}

#[test]
fn no_more_bullets_than_the_limit() {
    let mut game = game_with(&[(0, 100 * U, 100 * U)]);
    for _ in 0..10 {
        game.handle_cmd(0, GameCommand::Fire);
    }
    assert_eq!(game.state().bullets.len(), BULLET_LIMIT as usize);
    let ids: Vec<u32> = game.state().bullets.iter().map(|b| b.id).collect();
    assert_eq!(ids, vec![0, 1, 2, 3]);
    game.tick_with(0, TICK_MICROS, &vec![]);
    let owned = game.state().bullets.iter().filter(|b| b.player_id == 0).count();
    assert!(owned <= game.state().players[0].bullet_limit as usize);
}

#[test]
fn commands_of_players_that_are_not_alive_are_dropped() {
    let mut game = game_with(&[(0, 100 * U, 100 * U), (1, 115 * U, 100 * U)]);
    game.handle_cmd(9, GameCommand::Fire);
    assert_eq!(game.state().bullets.len(), 0);
    game.tick_with(0, TICK_MICROS, &vec![]);
    assert_eq!(game.state().dead.len(), 2);
    game.handle_cmd(0, GameCommand::Fire);
    game.handle_cmd(0, GameCommand::Throttle(U));
    assert_eq!(game.state().bullets.len(), 0);
    assert_eq!(game.state().dead[0].player.throttle, 0);
}

#[test]
fn throttle_is_kept_between_zero_and_one() {
    let mut game = game_with(&[(0, 100 * U, 100 * U)]);
    game.handle_cmd(0, GameCommand::Throttle(5 * U));
    assert_eq!(game.state().players[0].throttle, U);
    game.handle_cmd(0, GameCommand::Throttle(-3));
    assert_eq!(game.state().players[0].throttle, 0);
    game.handle_cmd(0, GameCommand::Throttle(U / 4));
    assert_eq!(game.state().players[0].throttle, U / 4);
}

#[test]
fn rotate_sets_the_heading_as_given() {
    let mut game = game_with(&[(0, 100 * U, 100 * U)]);
    let north = Heading::new(1_570_796, 0, U).unwrap();
    game.handle_cmd(0, GameCommand::Rotate(north));
    assert_eq!(game.state().players[0].heading, north);
    // An angle of many turns is kept as it is.
    let far = Heading::new(70_000_000, U, 0).unwrap();
    game.handle_cmd(0, GameCommand::Rotate(far));
    assert_eq!(game.state().players[0].heading.angle, 70_000_000);
    // A vector that is no unit vector is dropped.
    game.handle_cmd(0, GameCommand::Rotate(Heading { angle: 0, dx: 3 * U, dy: 0 }));
    assert_eq!(game.state().players[0].heading, far);
}

#[test]
fn a_player_moves_along_its_heading_and_stays_inside() {
    let mut game = game_with(&[(0, 100 * U, 100 * U)]);
    game.handle_cmd(0, GameCommand::Throttle(U));
    // Speed 150 - 10 / 10 = 149 units per second, for one second.
    game.tick_with(0, 1_000_000, &vec![]);
    assert_eq!(game.state().players[0].x, 249 * U);
    assert_eq!(game.state().players[0].y, 100 * U);
    game.handle_cmd(0, GameCommand::Throttle(U / 2));
    game.tick_with(1, 1_000_000, &vec![]);
    assert_eq!(game.state().players[0].x, 249 * U + 149 * U / 2);
    game.handle_cmd(0, GameCommand::Throttle(U));
    for i in 0..10 {
        game.tick_with(2 + i, 1_000_000, &vec![]);
    }
    assert_eq!(game.state().players[0].x, 1000 * U - PLAYER_RADIUS);
    let west = Heading::new(3_141_593, -U, 0).unwrap();
    game.handle_cmd(0, GameCommand::Rotate(west));
    for i in 0..10 {
        game.tick_with(20 + i, 1_000_000, &vec![]);
    }
    assert_eq!(game.state().players[0].x, PLAYER_RADIUS);
}

#[test]
fn an_item_appears_every_five_seconds_up_to_twenty() {
    let mut game = Game::new(config(), 0, 5);
    game.tick_with(4_999, TICK_MICROS, &vec![1, 2, 3]);
    assert_eq!(game.state().items.len(), 0);
    game.tick_with(5_000, TICK_MICROS, &vec![1, 20 * D, 30 * D]);
    assert_eq!(game.state().items.len(), 1);
    let item = game.state().items[0];
    assert_eq!(item.id, 0);
    assert_eq!(item.kind, ItemKind::Growth);
    assert_eq!(item.x, ITEM_RADIUS + 20 * U);
    assert_eq!(item.y, ITEM_RADIUS + 30 * U);
    assert_eq!(item.radius, ITEM_RADIUS);
    game.tick_with(9_999, TICK_MICROS, &vec![1, 2, 3]);
    assert_eq!(game.state().items.len(), 1);
    let mut now: u64 = 5_000;
    for _ in 0..40 {
        now += 5_000;
        game.tick(now, TICK_MICROS);
        assert!(game.state().items.len() <= 20);
    }
    assert_eq!(game.state().items.len(), 20);
    for item in &game.state().items {
        assert!(item.radius <= item.x && item.x <= 1000 * U - item.radius);
        assert!(item.radius <= item.y && item.y <= 500 * U - item.radius);
    }
}

#[test]
fn a_player_picks_up_the_item_it_touches() {
    let mut game = game_with(&[(0, 100 * U, 100 * U)]);
    // Kind 0 adds a bullet; the item lies 5 units from the player's centre.
    let x = (105 * U - ITEM_RADIUS) as u64;
    let y = (100 * U - ITEM_RADIUS) as u64;
    game.tick_with(5_000, TICK_MICROS, &vec![0, x, y]);
    assert_eq!(game.state().items.len(), 0);
    assert_eq!(game.state().players[0].bullet_limit, BULLET_LIMIT + 1);
    // Kind 1 lets the player grow by 2 units.
    game.tick_with(10_000, TICK_MICROS, &vec![1, x, y]);
    assert_eq!(game.state().items.len(), 0);
    assert_eq!(game.state().players[0].radius, PLAYER_RADIUS + 2 * U);
    // Kind 2 makes its bullets faster by 50 units per second.
    game.tick_with(15_000, TICK_MICROS, &vec![2, x, y]);
    assert_eq!(game.state().players[0].bullet_speed, BULLET_SPEED + 50 * U);
    // An item out of reach stays.
    game.tick_with(20_000, TICK_MICROS, &vec![0, 900 * D, 400 * D]);
    assert_eq!(game.state().items.len(), 1);
    assert_eq!(game.state().players[0].bullet_limit, BULLET_LIMIT + 1);
}

#[test]
fn a_player_that_left_is_gone_for_good() {
    let mut game =
        game_with(&[(0, 100 * U, 100 * U), (1, 300 * U, 100 * U), (2, 310 * U, 100 * U)]);
    game.tick_with(10_000, TICK_MICROS, &vec![]);
    // Players 1 and 2 met; player 0 had no one to be rewarded with.
    assert_eq!(game.state().dead.len(), 2);
    game.handle_cmd(0, GameCommand::Fire);
    game.player_left(1);
    assert_eq!(game.state().dead.len(), 1);
    assert_eq!(game.state().dead[0].player.id, 2);
    game.player_left(0);
    assert_eq!(game.state().players.len(), 0);
    assert!(game.state().scoreboard.get(&0).is_none());
    game.player_left(0);
    game.player_left(7);
    assert_eq!(game.state().players.len(), 0);
    assert_eq!(game.state().dead.len(), 1);
}

#[test]
fn reset_starts_anew_with_the_same_players() {
    let mut game =
        game_with(&[(0, 100 * U, 100 * U), (1, 130 * U, 100 * U), (2, 500 * U, 400 * U)]);
    game.handle_cmd(0, GameCommand::Fire);
    game.handle_cmd(2, GameCommand::Fire);
    game.tick_with(0, TICK_MICROS, &vec![]);
    game.tick_with(5_000, TICK_MICROS, &vec![0, 900 * D, 20 * D, 1, 2]);
    assert_eq!(game.state().scoreboard.get(&0), Some(&1));
    assert_eq!(game.state().dead.len(), 1);
    assert_eq!(game.state().items.len(), 1);
    game.reset_with(6_000, &vec![10, 20, 300 * D, 40, 600 * D, 60]);
    assert!(game.state().scoreboard.is_empty());
    assert_eq!(game.state().bullets.len(), 0);
    assert_eq!(game.state().items.len(), 0);
    assert_eq!(game.state().dead.len(), 0);
    let ids: Vec<u32> = game.state().players.iter().map(|p| p.id).collect();
    assert_eq!(ids, vec![0, 2, 1]);
    let fresh = PlayerState::new(0);
    assert_eq!(game.state().players[0].x, PLAYER_RADIUS + 10);
    assert_eq!(game.state().players[0].y, PLAYER_RADIUS + 20);
    assert_eq!(game.state().players[2].x, PLAYER_RADIUS + 600 * U);
    assert_eq!(game.state().players[0].bullet_limit, fresh.bullet_limit);
    // Bullet ids start anew.
    game.handle_cmd(0, GameCommand::Fire);
    assert_eq!(game.state().bullets[0].id, 0);
    // The same steps after a reset lead to the same state.
    let mut other = game_with(&[]);
    other.add_player_at(0, 6_000, 10, 20);
    other.add_player_at(2, 6_000, 300 * D, 40);
    other.add_player_at(1, 6_000, 600 * D, 60);
    other.handle_cmd(0, GameCommand::Fire);
    game.tick_with(16_000, TICK_MICROS, &vec![]);
    other.tick_with(16_000, TICK_MICROS, &vec![]);
    assert_eq!(game.state().players, other.state().players);
    assert_eq!(game.state().bullets, other.state().bullets);
    assert_eq!(game.state().scoreboard, other.state().scoreboard);
    assert_eq!(game.state().scoreboard.get(&1), Some(&1));
}

#[test]
fn the_same_seed_and_the_same_steps_give_the_same_game() {
    let mut a = Game::new(config(), 0, 4242);
    let mut b = Game::new(config(), 0, 4242);
    let mut c = Game::new(config(), 0, 4243);
    for game in [&mut a, &mut b, &mut c] {
        for id in 0..8 {
            game.add_player(id, 0);
        }
    }
    assert_eq!(a.state().players, b.state().players);
    assert_ne!(a.state().players, c.state().players);
    let mut now: u64 = 0;
    for round in 0..300u32 {
        now += 33;
        for game in [&mut a, &mut b] {
            game.handle_cmd(round % 8, GameCommand::Throttle(U));
            game.handle_cmd((round + 3) % 8, GameCommand::Fire);
            game.tick(now, TICK_MICROS);
        }
        assert_eq!(a.state().players, b.state().players);
        assert_eq!(a.state().dead, b.state().dead);
        assert_eq!(a.state().bullets, b.state().bullets);
        assert_eq!(a.state().items, b.state().items);
        assert_eq!(a.state().scoreboard, b.state().scoreboard);
    }
}

#[test]
fn a_snapshot_is_a_copy() {
    let mut game = game_with(&[(0, 100 * U, 100 * U)]);
    let before = game.state().clone();
    game.handle_cmd(0, GameCommand::Fire);
    assert_eq!(before.bullets.len(), 0);
    assert_eq!(before.players, vec![game.state().players[0]]);
    assert_eq!(game.state().bullets.len(), 1);
}

#[test]
fn a_game_draws_three_numbers_and_two_for_each_player() {
    let mut game =
        game_with(&[(0, 100 * U, 100 * U), (1, 115 * U, 100 * U), (2, 500 * U, 300 * U)]);
    assert_eq!(game.draws_for_all().len(), 9);
    game.tick_with(0, TICK_MICROS, &vec![]);
    assert_eq!(game.state().players.len(), 1);
    assert_eq!(game.state().dead.len(), 2);
    let before = game.state().clone();
    assert_eq!(game.draws_for_all().len(), 9);
    assert_eq!(game.state().players, before.players);
    assert_eq!(game.state().dead, before.dead);
    assert_eq!(Game::new(config(), 0, 3).draws_for_all().len(), 3);
}

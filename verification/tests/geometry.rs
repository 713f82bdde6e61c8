use tokyo_server::clock::{deadline, elapsed};
use tokyo_server::geometry::{is_colliding, Triangle};
use tokyo_server::models::{
    BulletState, GameConfig, Heading, Item, ItemKind, PlayerState, BULLET_LIMIT_CAP,
    PLAYER_MAX_RADIUS, PLAYER_RADIUS,
};
use tokyo_server::units::{clamp, divide, travel};

const U: i64 = 1_000_000;

fn player_at(x: i64, y: i64, radius: i64) -> PlayerState {
    PlayerState { x, y, radius, ..PlayerState::new(1) }
}

fn config() -> GameConfig {
    GameConfig { bound_x: 1000 * U, bound_y: 500 * U }
}

#[test]
fn circles_collide_when_closer_than_the_sum_of_their_radii() {
    let a = player_at(0, 0, 10);
    assert!(is_colliding(&a, &player_at(19, 0, 10)));
    assert!(!is_colliding(&a, &player_at(20, 0, 10)));
    // A 3-4-5 triangle scaled by four: distance 20.
    assert!(!is_colliding(&a, &player_at(12, 16, 10)));
    assert!(is_colliding(&a, &player_at(12, 15, 10)));
    assert!(is_colliding(&a, &player_at(-12, -15, 10)));
    // A circle of radius zero never collides with a point at its centre's place.
    assert!(!is_colliding(&player_at(5, 5, 0), &player_at(5, 5, 0)));
    assert!(is_colliding(&player_at(5, 5, 1), &player_at(5, 5, 0)));
}

#[test]
fn the_collision_test_takes_any_coordinates() {
    let far = player_at(i64::MAX, i64::MAX, i64::MAX);
    let near = player_at(i64::MIN, i64::MIN, i64::MAX);
    // Distance squared 2 * (2^64 - 1)^2 against radii squared (2^64 - 2)^2.
    assert!(!is_colliding(&far, &near));
    assert!(is_colliding(&far, &far));
    let inverse = player_at(0, 0, i64::MIN);
    assert!(is_colliding(&inverse, &player_at(i64::MAX, 0, i64::MIN)));
}

#[test]
fn entities_show_their_place_and_size() {
    let p = PlayerState {
        heading: Heading { angle: 1_500_000, dx: 70_737, dy: 997_495 },
        ..player_at(3, 4, 5)
    };
    assert_eq!(
        (Triangle::x(&p), Triangle::y(&p), p.angle(), Triangle::radius(&p)),
        (3, 4, 1_500_000, 5)
    );
    let b = p.bullet(config(), 9);
    assert_eq!(Triangle::x(&b), 3 + 5 * 70_737);
    assert_eq!(Triangle::y(&b), 4 + 5 * 997_495);
    assert_eq!(b.angle(), 1_500_000);
    assert_eq!(Triangle::radius(&b), p.bullet_radius);
    let item = Item::new_randomized(2, config(), 5, 7, 11);
    assert_eq!(item.kind, ItemKind::BulletBoost);
    assert_eq!(Triangle::x(&item), 5 * U + 7);
    assert_eq!(Triangle::y(&item), 5 * U + 11);
    assert_eq!(item.angle(), 0);
    assert_eq!(Triangle::radius(&item), 5 * U);
}

#[test]
fn headings_are_unit_vectors() {
    assert!(Heading::east().is_valid());
    assert_eq!(Heading::east(), Heading { angle: 0, dx: U, dy: 0 });
    // cos and sin of one radian, rounded.
    assert!(Heading::new(U, 540_302, 841_471).is_some());
    assert!(Heading::new(0, 0, 0).is_none());
    assert!(Heading::new(0, U, U).is_none());
    assert!(Heading::new(0, U + 1, 0).is_none());
    assert!(Heading::new(0, -U, 0).is_some());
    assert!(Heading::new(0, 999_998, 0).is_none());
    assert!(Heading::new(0, 999_999, 0).is_some());
    assert!(Heading::new(0, i64::MAX, i64::MIN).is_none());
}

#[test]
fn distances_are_rounded_toward_zero() {
    assert_eq!(travel(U, 300 * U, 33_333), 9_999_900);
    assert_eq!(travel(-U, 300 * U, 33_333), -9_999_900);
    assert_eq!(travel(U, 1, 999_999), 0);
    assert_eq!(travel(-U, 1, 999_999), 0);
    assert_eq!(travel(500_000, 7, 1_000_000), 3);
    assert_eq!(travel(-500_000, 7, 1_000_000), -3);
    assert_eq!(travel(U, 1_000_000_000, u32::MAX), 4_294_967_295_000);
    assert_eq!(divide(7, 2), 3);
    assert_eq!(divide(-7, 2), -3);
    assert_eq!(divide(0, 5), 0);
    assert_eq!(clamp(5, 1, 3), 3);
    assert_eq!(clamp(0, 1, 3), 1);
    assert_eq!(clamp(2, 1, 3), 2);
    assert_eq!(clamp(2, 3, 1), 1);
}

#[test]
fn the_bigger_the_player_the_slower() {
    let small = player_at(100 * U, 100 * U, PLAYER_RADIUS);
    let big = player_at(100 * U, 100 * U, PLAYER_MAX_RADIUS);
    let full = PlayerState { throttle: U, ..small };
    assert_eq!(small.pace(config()), 0);
    assert_eq!(full.pace(config()), 149 * U);
    assert_eq!(PlayerState { throttle: U / 2, ..big }.pace(config()), 145 * U / 2);
}

#[test]
fn pickups_stop_at_their_caps() {
    let cfg = config();
    let mut p = player_at(20 * U, 20 * U, PLAYER_RADIUS);
    let grow = Item { id: 0, x: 0, y: 0, radius: 0, kind: ItemKind::Growth };
    for _ in 0..100 {
        grow.apply_to(&mut p, cfg);
    }
    assert_eq!(p.radius, PLAYER_MAX_RADIUS);
    // The player was pushed away from the edge as it grew.
    assert_eq!((p.x, p.y), (PLAYER_MAX_RADIUS, PLAYER_MAX_RADIUS));
    let more = Item { kind: ItemKind::ExtraBullet, ..grow };
    for _ in 0..100 {
        more.apply_to(&mut p, cfg);
    }
    assert_eq!(p.bullet_limit, BULLET_LIMIT_CAP);
    let boost = Item { kind: ItemKind::BulletBoost, ..grow };
    for _ in 0..100 {
        boost.apply_to(&mut p, cfg);
    }
    assert_eq!(p.bullet_speed, 1000 * U);
}

#[test]
fn bullets_fly_straight() {
    let mut b = BulletState {
        id: 1,
        player_id: 2,
        x: 10 * U,
        y: 10 * U,
        heading: Heading { angle: 2_356_194, dx: -707_107, dy: 707_107 },
        radius: 2 * U,
        speed: 300 * U,
    };
    b.advance(1_000_000);
    assert_eq!(b.x, 10 * U - 212_132_100);
    assert_eq!(b.y, 10 * U + 212_132_100);
    assert!(!b.in_bounds(config()));
    b.x = -2 * U + 1;
    assert!(b.in_bounds(config()));
    b.x = -2 * U;
    assert!(!b.in_bounds(config()));
    b.x = 1002 * U - 1;
    assert!(b.in_bounds(config()));
    b.y = 502 * U;
    assert!(!b.in_bounds(config()));
}

#[test]
fn deadlines_stop_at_the_end_of_the_clock() {
    assert_eq!(deadline(1_000, 3_000), 4_000);
    assert_eq!(deadline(u64::MAX - 5, 3_000), u64::MAX);
    assert!(elapsed(1_000, 6_000, 5_000));
    assert!(!elapsed(1_000, 5_999, 5_000));
    assert!(!elapsed(6_000, 1_000, 0));
}

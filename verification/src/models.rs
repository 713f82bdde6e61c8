//! The value types of the world: configuration, players, bullets, items and
//! the commands that players send.

use crate::geometry::{Circle, Triangle};
use crate::units::{
    clamp, clamp_spec, travel, travel_spec, LIMIT, SCALE, SPEED_LIMIT, TRAVEL_LIMIT,
};
use vstd::prelude::*;

verus! {

/// Radius of a fresh player, in steps.
pub const PLAYER_RADIUS: i64 = 10_000_000;

/// Largest radius a player can grow to, in steps.
pub const PLAYER_MAX_RADIUS: i64 = 50_000_000;

/// Speed of a player of radius zero at full throttle, in steps per second.
pub const PLAYER_BASE_SPEED: i64 = 150_000_000;

/// Radius of the bullets of a fresh player, in steps.
pub const BULLET_RADIUS: i64 = 2_000_000;

/// Largest radius of a bullet, in steps.
pub const BULLET_MAX_RADIUS: i64 = 50_000_000;

/// Speed of the bullets of a fresh player, in steps per second.
pub const BULLET_SPEED: i64 = 300_000_000;

/// Number of bullets a fresh player may have in flight.
pub const BULLET_LIMIT: u32 = 4;

/// Largest number of bullets in flight that pickups can lead to.
pub const BULLET_LIMIT_CAP: u32 = 16;

/// A bullet leaves its player this many units ahead of the player's centre.
pub const BULLET_SPAWN_OFFSET: i64 = 5;

/// Radius of an item, in steps.
pub const ITEM_RADIUS: i64 = 5_000_000;

/// What one growth pickup adds to a player's radius, in steps.
pub const GROWTH_STEP: i64 = 2_000_000;

/// What one boost pickup adds to the speed of a player's bullets.
pub const BOOST_STEP: i64 = 50_000_000;

/// No bullet is ever further than this from the origin along an axis.
pub const COORD_LIMIT: i64 = 2_000_000_000_000;

/// The size of the world, in steps. The origin is one corner.
#[derive(Clone, Copy, Debug, PartialEq, Eq, Structural)]
pub struct GameConfig {
    pub bound_x: i64,
    pub bound_y: i64,
}

impl GameConfig {
    /// Both bounds can be counted in: none is negative, none is beyond
    /// [`LIMIT`].
    pub open spec fn valid(self) -> bool {
        &&& 0 <= self.bound_x <= LIMIT
        &&& 0 <= self.bound_y <= LIMIT
    }

    /// The configuration as the game keeps it: the bounds as they are, but
    /// for a bound that cannot be counted in, which gives way to the nearest
    /// that can.
    pub open spec fn normalized(self) -> GameConfig {
        GameConfig {
            bound_x: clamp_spec(self.bound_x as int, 0, LIMIT as int) as i64,
            bound_y: clamp_spec(self.bound_y as int, 0, LIMIT as int) as i64,
        }
    }

    /// Computes [`GameConfig::normalized`].
    pub fn normalize(self) -> (r: GameConfig)
        ensures
            r == self.normalized(),
            r.valid(),
            self.valid() ==> r == self,
    {
        GameConfig {
            bound_x: clamp(self.bound_x, 0, LIMIT),
            bound_y: clamp(self.bound_y, 0, LIMIT),
        }
    }

    /// The largest radius that fits into the world: half the smaller bound.
    pub open spec fn max_radius_spec(self) -> int {
        if self.bound_x <= self.bound_y {
            self.bound_x / 2
        } else {
            self.bound_y / 2
        }
    }

    /// Computes [`GameConfig::max_radius_spec`].
    pub fn max_radius(self) -> (r: i64)
        requires
            self.valid(),
        ensures
            r == self.max_radius_spec(),
            0 <= r,
            2 * r <= self.bound_x,
            2 * r <= self.bound_y,
    {
        if self.bound_x <= self.bound_y {
            self.bound_x / 2
        } else {
            self.bound_y / 2
        }
    }

    /// A radius as the world allows it: `radius`, or the largest radius that
    /// fits where `radius` is larger.
    pub open spec fn fit_spec(self, radius: int) -> int {
        if radius <= self.max_radius_spec() {
            radius
        } else {
            self.max_radius_spec()
        }
    }

    /// Computes [`GameConfig::fit_spec`].
    pub fn fit(self, radius: i64) -> (r: i64)
        requires
            self.valid(),
            0 <= radius,
        ensures
            r == self.fit_spec(radius as int),
            0 <= r <= radius,
            2 * r <= self.bound_x,
            2 * r <= self.bound_y,
    {
        let most: i64 = self.max_radius();
        if radius <= most {
            radius
        } else {
            most
        }
    }
}

/// A direction: the angle as the player gave it, in fixed-point radians, and
/// the unit vector along it, in steps.
#[derive(Clone, Copy, Debug, PartialEq, Eq, Structural)]
pub struct Heading {
    pub angle: i64,
    pub dx: i64,
    pub dy: i64,
}

impl Heading {
    /// The vector has length one, up to rounding of its parts.
    pub open spec fn valid(self) -> bool {
        &&& -SCALE <= self.dx <= SCALE
        &&& -SCALE <= self.dy <= SCALE
        &&& SCALE * SCALE - 2 * SCALE <= self.dx * self.dx + self.dy * self.dy <= SCALE * SCALE
            + 2 * SCALE
    }

    /// The heading along the x axis.
    pub open spec fn east_spec() -> Heading {
        Heading { angle: 0, dx: SCALE, dy: 0 }
    }

    /// The heading along the x axis.
    pub fn east() -> (r: Heading)
        ensures
            r == Heading::east_spec(),
            r.valid(),
    {
        assert(SCALE * SCALE == 1_000_000_000_000) by (nonlinear_arith)
            requires
                SCALE == 1_000_000,
        ;
        Heading { angle: 0, dx: SCALE, dy: 0 }
    }

    /// Whether the vector has length one, up to rounding of its parts.
    pub fn is_valid(&self) -> (r: bool)
        ensures
            r == self.valid(),
    {
        if self.dx < -SCALE || self.dx > SCALE || self.dy < -SCALE || self.dy > SCALE {
            return false;
        }
        assert(0 <= self.dx * self.dx <= 1_000_000_000_000) by (nonlinear_arith)
            requires
                -1_000_000 <= self.dx <= 1_000_000,
        ;
        assert(0 <= self.dy * self.dy <= 1_000_000_000_000) by (nonlinear_arith)
            requires
                -1_000_000 <= self.dy <= 1_000_000,
        ;
        assert(SCALE * SCALE == 1_000_000_000_000) by (nonlinear_arith)
            requires
                SCALE == 1_000_000,
        ;
        let squared: i64 = self.dx * self.dx + self.dy * self.dy;
        999_998_000_000 <= squared && squared <= 1_000_002_000_000
    }

    /// The heading with these parts, if its vector has length one.
    pub fn new(angle: i64, dx: i64, dy: i64) -> (r: Option<Heading>)
        ensures
            r == if (Heading { angle, dx, dy }).valid() {
                Some(Heading { angle, dx, dy })
            } else {
                None
            },
    {
        let heading = Heading { angle, dx, dy };
        if heading.is_valid() {
            Some(heading)
        } else {
            None
        }
    }
}

/// Where a draw puts the centre of a circle of `radius` along an axis of
/// length `bound`, so that the circle lies inside.
pub open spec fn spot_spec(radius: int, bound: int, draw: int) -> int {
    radius + draw % (bound - 2 * radius + 1)
}

/// Computes [`spot_spec`].
pub fn spot(radius: i64, bound: i64, draw: u64) -> (r: i64)
    requires
        0 <= radius,
        2 * radius <= bound <= LIMIT,
    ensures
        r == spot_spec(radius as int, bound as int, draw as int),
        radius <= r <= bound - radius,
{
    let span: u64 = (bound - 2 * radius + 1) as u64;
    let offset: u64 = draw % span;
    radius + offset as i64
}

/// A living player.
#[derive(Clone, Copy, Debug, PartialEq, Eq, Structural)]
pub struct PlayerState {
    pub id: u32,
    pub x: i64,
    pub y: i64,
    pub heading: Heading,
    pub radius: i64,
    pub throttle: i64,
    pub bullet_limit: u32,
    pub bullet_radius: i64,
    pub bullet_speed: i64,
}

impl PlayerState {
    /// The player lies inside the world and all its attributes are in range.
    pub open spec fn valid(self, config: GameConfig) -> bool {
        &&& 0 <= self.radius <= PLAYER_MAX_RADIUS
        &&& self.radius <= self.x <= config.bound_x - self.radius
        &&& self.radius <= self.y <= config.bound_y - self.radius
        &&& self.heading.valid()
        &&& 0 <= self.throttle <= SCALE
        &&& 0 <= self.bullet_radius <= BULLET_MAX_RADIUS
        &&& 0 <= self.bullet_speed <= SPEED_LIMIT
    }

    /// A fresh player: default attributes, at rest, heading east.
    pub open spec fn fresh(id: u32) -> PlayerState {
        PlayerState {
            id,
            x: PLAYER_RADIUS,
            y: PLAYER_RADIUS,
            heading: Heading::east_spec(),
            radius: PLAYER_RADIUS,
            throttle: 0,
            bullet_limit: BULLET_LIMIT,
            bullet_radius: BULLET_RADIUS,
            bullet_speed: BULLET_SPEED,
        }
    }

    /// A fresh player in the world of `config`: as large as a fresh player
    /// is, or as large as the world allows where that is less.
    pub open spec fn fresh_in(id: u32, config: GameConfig) -> PlayerState {
        let radius = config.fit_spec(PLAYER_RADIUS as int) as i64;
        PlayerState { x: radius, y: radius, radius, ..PlayerState::fresh(id) }
    }

    /// Creates a fresh player in the world of `config`.
    pub fn new_in(id: u32, config: GameConfig) -> (r: PlayerState)
        requires
            config.valid(),
        ensures
            r == PlayerState::fresh_in(id, config),
            r.valid(config),
    {
        let radius: i64 = config.fit(PLAYER_RADIUS);
        let mut player: PlayerState = PlayerState::new(id);
        player.x = radius;
        player.y = radius;
        player.radius = radius;
        player
    }

    /// Creates a fresh player.
    pub fn new(id: u32) -> (r: PlayerState)
        ensures
            r == PlayerState::fresh(id),
            r.heading.valid(),
    {
        PlayerState {
            id,
            x: PLAYER_RADIUS,
            y: PLAYER_RADIUS,
            heading: Heading::east(),
            radius: PLAYER_RADIUS,
            throttle: 0,
            bullet_limit: BULLET_LIMIT,
            bullet_radius: BULLET_RADIUS,
            bullet_speed: BULLET_SPEED,
        }
    }

    /// The player moved to the place that two draws pick.
    pub open spec fn relocated(self, config: GameConfig, draw_x: u64, draw_y: u64) -> PlayerState {
        PlayerState {
            x: spot_spec(self.radius as int, config.bound_x as int, draw_x as int) as i64,
            y: spot_spec(self.radius as int, config.bound_y as int, draw_y as int) as i64,
            ..self
        }
    }

    /// Moves the player to the place that two draws pick.
    pub fn randomize(&mut self, config: GameConfig, draw_x: u64, draw_y: u64)
        requires
            config.valid(),
            old(self).valid(config),
        ensures
            *final(self) == old(self).relocated(config, draw_x, draw_y),
            final(self).valid(config),
    {
        self.x = spot(self.radius, config.bound_x, draw_x);
        self.y = spot(self.radius, config.bound_y, draw_y);
    }

    /// The speed at full throttle: the bigger the player, the slower.
    pub open spec fn speed_spec(self) -> int {
        let slowed = PLAYER_BASE_SPEED - self.radius / 10;
        if slowed < 0 { 0 } else { slowed }
    }

    /// The speed at the player's throttle, in steps per second.
    pub open spec fn pace_spec(self) -> int {
        self.speed_spec() * self.throttle / (SCALE as int)
    }

    /// Computes [`PlayerState::pace_spec`].
    pub fn pace(&self, config: GameConfig) -> (r: i64)
        requires
            self.valid(config),
        ensures
            r == self.pace_spec(),
            0 <= r <= PLAYER_BASE_SPEED,
    {
        let slowed: i64 = PLAYER_BASE_SPEED - self.radius / 10;
        let speed: i64 = if slowed < 0 { 0 } else { slowed };
        assert(0 <= speed * self.throttle <= 150_000_000 * 1_000_000) by (nonlinear_arith)
            requires
                0 <= speed <= 150_000_000,
                0 <= self.throttle <= 1_000_000,
        ;
        assert(speed * self.throttle / 1_000_000 <= 150_000_000) by (nonlinear_arith)
            requires
                0 <= speed * self.throttle <= 150_000_000 * 1_000_000,
        ;
        speed * self.throttle / SCALE
    }

    /// The player after `dt` microseconds: moved along its heading and kept
    /// inside the world.
    pub open spec fn advanced(self, config: GameConfig, dt: u32) -> PlayerState {
        let pace = self.pace_spec();
        let moved_x = self.x + travel_spec(self.heading.dx as int, pace, dt as int);
        let moved_y = self.y + travel_spec(self.heading.dy as int, pace, dt as int);
        PlayerState {
            x: clamp_spec(moved_x, self.radius as int, config.bound_x - self.radius) as i64,
            y: clamp_spec(moved_y, self.radius as int, config.bound_y - self.radius) as i64,
            ..self
        }
    }

    /// Computes [`PlayerState::advanced`].
    pub fn advance(&mut self, config: GameConfig, dt: u32)
        requires
            config.valid(),
            old(self).valid(config),
        ensures
            *final(self) == old(self).advanced(config, dt),
            final(self).valid(config),
    {
        let pace: i64 = self.pace(config);
        let moved_x: i64 = self.x + travel(self.heading.dx, pace, dt);
        let moved_y: i64 = self.y + travel(self.heading.dy, pace, dt);
        self.x = clamp(moved_x, self.radius, config.bound_x - self.radius);
        self.y = clamp(moved_y, self.radius, config.bound_y - self.radius);
    }

    /// The bullet that the player fires, under the given id.
    pub open spec fn bullet_spec(self, bullet_id: u32) -> BulletState {
        BulletState {
            id: bullet_id,
            player_id: self.id,
            x: (self.x + BULLET_SPAWN_OFFSET * self.heading.dx) as i64,
            y: (self.y + BULLET_SPAWN_OFFSET * self.heading.dy) as i64,
            heading: self.heading,
            radius: self.bullet_radius,
            speed: self.bullet_speed,
        }
    }

    /// Computes [`PlayerState::bullet_spec`].
    pub fn bullet(&self, config: GameConfig, bullet_id: u32) -> (r: BulletState)
        requires
            config.valid(),
            self.valid(config),
        ensures
            r == self.bullet_spec(bullet_id),
            r.valid(),
    {
        BulletState {
            id: bullet_id,
            player_id: self.id,
            x: self.x + BULLET_SPAWN_OFFSET * self.heading.dx,
            y: self.y + BULLET_SPAWN_OFFSET * self.heading.dy,
            heading: self.heading,
            radius: self.bullet_radius,
            speed: self.bullet_speed,
        }
    }
}

impl Triangle for PlayerState {
    open spec fn circle(&self) -> Circle {
        Circle { x: self.x as int, y: self.y as int, radius: self.radius as int }
    }

    open spec fn heading_angle(&self) -> int {
        self.heading.angle as int
    }

    fn x(&self) -> (r: i64) {
        self.x
    }

    fn y(&self) -> (r: i64) {
        self.y
    }

    fn angle(&self) -> (r: i64) {
        self.heading.angle
    }

    fn radius(&self) -> (r: i64) {
        self.radius
    }
}

/// A bullet in flight.
#[derive(Clone, Copy, Debug, PartialEq, Eq, Structural)]
pub struct BulletState {
    pub id: u32,
    pub player_id: u32,
    pub x: i64,
    pub y: i64,
    pub heading: Heading,
    pub radius: i64,
    pub speed: i64,
}

impl BulletState {
    /// The bullet's attributes are in range.
    pub open spec fn valid(self) -> bool {
        &&& -COORD_LIMIT <= self.x <= COORD_LIMIT
        &&& -COORD_LIMIT <= self.y <= COORD_LIMIT
        &&& self.heading.valid()
        &&& 0 <= self.radius <= BULLET_MAX_RADIUS
        &&& 0 <= self.speed <= SPEED_LIMIT
    }

    /// The bullet after `dt` microseconds of flight.
    pub open spec fn advanced(self, dt: u32) -> BulletState {
        BulletState {
            x: (self.x + travel_spec(self.heading.dx as int, self.speed as int, dt as int)) as i64,
            y: (self.y + travel_spec(self.heading.dy as int, self.speed as int, dt as int)) as i64,
            ..self
        }
    }

    /// Computes [`BulletState::advanced`].
    pub fn advance(&mut self, dt: u32)
        requires
            old(self).valid(),
        ensures
            *final(self) == old(self).advanced(dt),
            final(self).in_flight(),
    {
        self.x = self.x + travel(self.heading.dx, self.speed, dt);
        self.y = self.y + travel(self.heading.dy, self.speed, dt);
    }

    /// What holds of a bullet between its move and the cull that follows.
    pub open spec fn in_flight(self) -> bool {
        &&& -COORD_LIMIT - TRAVEL_LIMIT <= self.x <= COORD_LIMIT + TRAVEL_LIMIT
        &&& -COORD_LIMIT - TRAVEL_LIMIT <= self.y <= COORD_LIMIT + TRAVEL_LIMIT
        &&& self.heading.valid()
        &&& 0 <= self.radius <= BULLET_MAX_RADIUS
        &&& 0 <= self.speed <= SPEED_LIMIT
    }

    /// The bullet's centre lies inside the world widened by its radius.
    pub open spec fn in_bounds_spec(self, config: GameConfig) -> bool {
        &&& -self.radius < self.x < config.bound_x + self.radius
        &&& -self.radius < self.y < config.bound_y + self.radius
    }

    /// Computes [`BulletState::in_bounds_spec`].
    pub fn in_bounds(&self, config: GameConfig) -> (r: bool)
        requires
            config.valid(),
            self.in_flight(),
        ensures
            r == self.in_bounds_spec(config),
            r ==> self.valid(),
    {
        self.x > -self.radius && self.x < config.bound_x + self.radius && self.y > -self.radius
            && self.y < config.bound_y + self.radius
    }
}

impl Triangle for BulletState {
    open spec fn circle(&self) -> Circle {
        Circle { x: self.x as int, y: self.y as int, radius: self.radius as int }
    }

    open spec fn heading_angle(&self) -> int {
        self.heading.angle as int
    }

    fn x(&self) -> (r: i64) {
        self.x
    }

    fn y(&self) -> (r: i64) {
        self.y
    }

    fn angle(&self) -> (r: i64) {
        self.heading.angle
    }

    fn radius(&self) -> (r: i64) {
        self.radius
    }
}

/// What an item does to the player that picks it up.
#[derive(Clone, Copy, Debug, PartialEq, Eq, Structural)]
pub enum ItemKind {
    /// One more bullet in flight, up to [`BULLET_LIMIT_CAP`].
    ExtraBullet,
    /// A larger radius, up to [`PLAYER_MAX_RADIUS`].
    Growth,
    /// Faster bullets, up to [`SPEED_LIMIT`].
    BulletBoost,
}

impl ItemKind {
    /// The kind that a draw picks.
    pub open spec fn from_draw_spec(draw: u64) -> ItemKind {
        if draw % 3 == 0 {
            ItemKind::ExtraBullet
        } else if draw % 3 == 1 {
            ItemKind::Growth
        } else {
            ItemKind::BulletBoost
        }
    }

    /// Computes [`ItemKind::from_draw_spec`].
    pub fn from_draw(draw: u64) -> (r: ItemKind)
        ensures
            r == ItemKind::from_draw_spec(draw),
    {
        let pick: u64 = draw % 3;
        if pick == 0 {
            ItemKind::ExtraBullet
        } else if pick == 1 {
            ItemKind::Growth
        } else {
            ItemKind::BulletBoost
        }
    }
}

/// A pickup lying in the world.
#[derive(Clone, Copy, Debug, PartialEq, Eq, Structural)]
pub struct Item {
    pub id: u32,
    pub x: i64,
    pub y: i64,
    pub radius: i64,
    pub kind: ItemKind,
}

impl Item {
    /// The item lies inside the world.
    pub open spec fn valid(self, config: GameConfig) -> bool {
        &&& 0 <= self.radius <= PLAYER_MAX_RADIUS
        &&& self.radius <= self.x <= config.bound_x - self.radius
        &&& self.radius <= self.y <= config.bound_y - self.radius
    }

    /// The item that three draws pick: its kind and its place. It is as
    /// large as an item is, or as large as the world allows where that is
    /// less.
    pub open spec fn randomized(
        id: u32,
        config: GameConfig,
        draw_kind: u64,
        draw_x: u64,
        draw_y: u64,
    ) -> Item {
        let radius = config.fit_spec(ITEM_RADIUS as int);
        Item {
            id,
            x: spot_spec(radius, config.bound_x as int, draw_x as int) as i64,
            y: spot_spec(radius, config.bound_y as int, draw_y as int) as i64,
            radius: radius as i64,
            kind: ItemKind::from_draw_spec(draw_kind),
        }
    }

    /// Creates the item that three draws pick.
    pub fn new_randomized(
        id: u32,
        config: GameConfig,
        draw_kind: u64,
        draw_x: u64,
        draw_y: u64,
    ) -> (r: Item)
        requires
            config.valid(),
        ensures
            r == Item::randomized(id, config, draw_kind, draw_x, draw_y),
            r.valid(config),
    {
        let radius: i64 = config.fit(ITEM_RADIUS);
        Item {
            id,
            x: spot(radius, config.bound_x, draw_x),
            y: spot(radius, config.bound_y, draw_y),
            radius,
            kind: ItemKind::from_draw(draw_kind),
        }
    }

    /// The radius that a player of `radius` grows to: one step more, but no
    /// more than [`PLAYER_MAX_RADIUS`] and no more than fits into the world.
    pub open spec fn grown(radius: int, config: GameConfig) -> int {
        let most = config.fit_spec(PLAYER_MAX_RADIUS as int);
        if radius + GROWTH_STEP <= most {
            radius + GROWTH_STEP
        } else {
            most
        }
    }

    /// The player after picking this item up. A player that grows is kept
    /// inside the world.
    pub open spec fn applied(self, player: PlayerState, config: GameConfig) -> PlayerState {
        match self.kind {
            ItemKind::ExtraBullet => PlayerState {
                bullet_limit: if player.bullet_limit < BULLET_LIMIT_CAP {
                    (player.bullet_limit + 1) as u32
                } else {
                    player.bullet_limit
                },
                ..player
            },
            ItemKind::Growth => {
                let radius = Item::grown(player.radius as int, config);
                PlayerState {
                    radius: radius as i64,
                    x: clamp_spec(player.x as int, radius, config.bound_x - radius) as i64,
                    y: clamp_spec(player.y as int, radius, config.bound_y - radius) as i64,
                    ..player
                }
            },
            ItemKind::BulletBoost => PlayerState {
                bullet_speed: if player.bullet_speed + BOOST_STEP <= SPEED_LIMIT {
                    (player.bullet_speed + BOOST_STEP) as i64
                } else {
                    SPEED_LIMIT
                },
                ..player
            },
        }
    }

    /// Computes [`Item::applied`].
    pub fn apply_to(&self, player: &mut PlayerState, config: GameConfig)
        requires
            config.valid(),
            old(player).valid(config),
        ensures
            *final(player) == self.applied(*old(player), config),
            final(player).valid(config),
            final(player).id == old(player).id,
            final(player).bullet_limit >= old(player).bullet_limit,
    {
        match self.kind {
            ItemKind::ExtraBullet => {
                if player.bullet_limit < BULLET_LIMIT_CAP {
                    player.bullet_limit = player.bullet_limit + 1;
                }
            },
            ItemKind::Growth => {
                let most: i64 = config.fit(PLAYER_MAX_RADIUS);
                let radius: i64 = if player.radius + GROWTH_STEP <= most {
                    player.radius + GROWTH_STEP
                } else {
                    most
                };
                player.radius = radius;
                player.x = clamp(player.x, radius, config.bound_x - radius);
                player.y = clamp(player.y, radius, config.bound_y - radius);
            },
            ItemKind::BulletBoost => {
                if player.bullet_speed + BOOST_STEP <= SPEED_LIMIT {
                    player.bullet_speed = player.bullet_speed + BOOST_STEP;
                } else {
                    player.bullet_speed = SPEED_LIMIT;
                }
            },
        }
    }
}

impl Triangle for Item {
    open spec fn circle(&self) -> Circle {
        Circle { x: self.x as int, y: self.y as int, radius: self.radius as int }
    }

    open spec fn heading_angle(&self) -> int {
        0
    }

    fn x(&self) -> (r: i64) {
        self.x
    }

    fn y(&self) -> (r: i64) {
        self.y
    }

    fn angle(&self) -> (r: i64) {
        0
    }

    fn radius(&self) -> (r: i64) {
        self.radius
    }
}

/// A player waiting to come back.
#[derive(Clone, Copy, Debug, PartialEq, Eq, Structural)]
pub struct DeadPlayer {
    /// The time in milliseconds from which the player may come back.
    pub respawn: u64,
    pub player: PlayerState,
}

/// What a player asks its ship to do.
#[derive(Clone, Copy, Debug, PartialEq, Eq, Structural)]
pub enum GameCommand {
    /// Turn to this heading.
    Rotate(Heading),
    /// Set the throttle, in steps; full throttle is [`SCALE`].
    Throttle(i64),
    /// Fire one bullet.
    Fire,
}

} // verus!

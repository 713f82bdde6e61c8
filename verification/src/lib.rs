//! Authoritative simulation and room lifecycle of a multiplayer arena game.
//!
//! Players steer ships in a bounded world, fire bullets at one another and
//! pick up items; a room runs one such game for a limited time and keeps its
//! score. This library holds the rules: what a tick does to the world, who
//! may join a room and when its game starts and ends, what a room tells its
//! sessions, and how rooms are created and found. Sockets, threads, clocks
//! and the store are the business of the program around it, which hands the
//! library plain values and carries out what it decides.
//!
//! Lengths, angles and throttle are fixed-point integers: one unit is
//! [`units::SCALE`] steps. A heading carries its unit vector, so that the
//! library needs no trigonometry. Times are milliseconds and tick lengths are
//! microseconds. Every operation that uses random numbers comes in two
//! forms: one that takes the numbers as an argument, and one that draws them
//! from the game's own generator.
//!
//! - [`units`], [`geometry`], [`models`]: numbers, circles and the things
//!   in the world.
//! - [`motion`], [`combat`], [`pickup`], [`scoring`]: the phases of a tick.
//! - [`game`]: the game and its operations; [`laws`], [`cap`] and [`crowd`]:
//!   what holds of it whatever the players do.
//! - [`lifecycle`], [`game_loop`]: admission, start and end of a room's game.
//! - [`room`], [`session`], [`registry`]: sessions, rooms and their registry.
//! - [`api`], [`config`], [`store`], [`messages`], [`text`]: the decisions
//!   of the web surface and the names and texts that the store is given.
//! - [`outside`]: the calls into other crates, taken on trust.

pub mod api;
pub mod cap;
pub mod clock;
pub mod collision;
pub mod combat;
pub mod config;
pub mod crowd;
pub mod game;
pub mod game_loop;
pub mod geometry;
pub mod keyed;
pub mod laws;
pub mod lifecycle;
pub mod messages;
pub mod models;
pub mod motion;
pub mod outside;
pub mod pickup;
pub mod registry;
pub mod room;
pub mod scoring;
pub mod seqs;
pub mod session;
pub mod store;
pub mod text;
pub mod units;

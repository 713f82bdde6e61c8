use tokyo_server::models::GameCommand;
use tokyo_server::room::SocketEvent;
use tokyo_server::session::{ClientWsActor, Frame, Reaction, ACTIONS_PER_SECOND};

fn session(key: &str) -> ClientWsActor {
    ClientWsActor::new(key.to_string(), "team".to_string(), "roomtokn".to_string())
}

#[test]
fn a_session_joins_when_it_opens_and_leaves_when_it_stops() {
    let s = session("k");
    let opening = s.started(5);
    match opening.event {
        SocketEvent::Join(key, team, addr) => {
            assert_eq!(key, "k");
            assert_eq!(team, "team");
            assert_eq!(addr, 5);
        },
        SocketEvent::Leave(..) => panic!("a session that opens joins"),
    }
    assert!(opening.records_player);
    match s.stopped(5) {
        SocketEvent::Leave(key, addr) => {
            assert_eq!(key, "k");
            assert_eq!(addr, 5);
        },
        SocketEvent::Join(..) => panic!("a session that stops leaves"),
    }
    assert_eq!(s.api_key(), "k");
    assert_eq!(s.room_token(), "roomtokn");
    assert!(!s.is_spectator());
    let watcher = session("SPECTATOR");
    assert!(watcher.is_spectator());
    assert!(!watcher.started(6).records_player);
}

#[test]
fn a_frame_within_the_rate_is_forwarded_if_it_holds_a_command() {
    let s = session("k");
    match s.react_to_text(true, Some(GameCommand::Fire)) {
        Reaction::Forward(msg) => {
            assert_eq!(msg.api_key, "k");
            assert_eq!(msg.cmd, GameCommand::Fire);
        },
        other => panic!("not forwarded: {:?}", other),
    }
    assert!(matches!(s.react_to_text(true, None), Reaction::Undecodable));
    assert!(matches!(s.react_to_text(false, Some(GameCommand::Fire)), Reaction::RateLimited));
    assert!(matches!(s.react_to_text(false, None), Reaction::RateLimited));
}

/// The most cells that the limiter lets pass in a burst that took `elapsed`:
/// the first one, then as many as a second holds, then one for every
/// twenty-second of a second that went by.
fn most_in_burst(elapsed: std::time::Duration) -> u128 {
    1 + u128::from(ACTIONS_PER_SECOND) + elapsed.as_millis() * u128::from(ACTIONS_PER_SECOND) / 1000
        + 1
}

#[test]
fn a_burst_of_commands_is_cut_to_the_rate() {
    let mut s = session("k");
    let mut forwarded: u128 = 0;
    let mut dropped: u128 = 0;
    let start = std::time::Instant::now();
    for _ in 0..100 {
        match s.handle(Frame::Text(Some(GameCommand::Fire)), 1) {
            Reaction::Forward(_) => forwarded += 1,
            Reaction::RateLimited => dropped += 1,
            other => panic!("unexpected: {:?}", other),
        }
    }
    let elapsed = start.elapsed();
    assert_eq!(ACTIONS_PER_SECOND, 22);
    assert!(forwarded >= 23);
    assert!(forwarded <= most_in_burst(elapsed), "{} in {:?}", forwarded, elapsed);
    assert_eq!(forwarded + dropped, 100);
}

#[test]
fn frames_without_a_command_count_against_the_rate() {
    let mut s = session("k");
    let mut passed: u128 = 0;
    let start = std::time::Instant::now();
    for _ in 0..100 {
        match s.handle(Frame::Text(None), 1) {
            Reaction::Undecodable => passed += 1,
            Reaction::RateLimited => {},
            other => panic!("unexpected: {:?}", other),
        }
    }
    for _ in 0..100 {
        match s.handle(Frame::Text(Some(GameCommand::Fire)), 1) {
            Reaction::Forward(_) => passed += 1,
            Reaction::RateLimited => {},
            other => panic!("unexpected: {:?}", other),
        }
    }
    let elapsed = start.elapsed();
    assert!(passed >= 23);
    assert!(passed <= most_in_burst(elapsed), "{} in {:?}", passed, elapsed);
}

#[test]
fn a_close_frame_makes_the_session_leave() {
    let mut s = session("k");
    match s.handle(Frame::Close, 8) {
        Reaction::Leave(key, addr) => {
            assert_eq!(key, "k");
            assert_eq!(addr, 8);
        },
        other => panic!("unexpected: {:?}", other),
    }
    assert!(matches!(s.handle(Frame::Other, 8), Reaction::Ignore));
    assert_eq!(
        ClientWsActor::stop_reason(),
        "The server decided it didn't like you anymore. Or maybe you connected another client with the same API key"
    );
}

//! The decisions of one session: what it tells its room when it opens and
//! closes, and what becomes of each frame that its socket hands it.

use crate::messages::PlayerGameCommand;
use crate::models::GameCommand;
use crate::outside::{meter_check, meter_per_second, CommandMeter};
use crate::room::{spectator_key, SocketEvent};
use vstd::prelude::*;
use vstd::string::*;

verus! {

/// Commands that a session may send in one second.
pub const ACTIONS_PER_SECOND: u32 = 22;

/// What a socket hands to its session.
#[derive(Clone, Copy, Debug, PartialEq, Eq, Structural)]
pub enum Frame {
    /// A text frame: the command it holds, if it holds one.
    Text(Option<GameCommand>),
    /// The peer closes the socket.
    Close,
    /// Any other frame.
    Other,
}

/// What a session does with a frame.
#[derive(Debug)]
pub enum Reaction {
    /// Hand the command to the room.
    Forward(PlayerGameCommand),
    /// Drop the frame: the session sends too fast.
    RateLimited,
    /// Drop the frame: it holds no command.
    Undecodable,
    /// Tell the room that the session under this key left, and stop.
    Leave(String, u64),
    /// Do nothing.
    Ignore,
}

/// What a session does with a frame, as a mathematical value.
pub enum ReactionView {
    Forward(Seq<char>, GameCommand),
    RateLimited,
    Undecodable,
    Leave(Seq<char>, u64),
    Ignore,
}

impl View for Reaction {
    type V = ReactionView;

    open spec fn view(&self) -> ReactionView {
        match self {
            Reaction::Forward(msg) => ReactionView::Forward(msg.api_key@, msg.cmd),
            Reaction::RateLimited => ReactionView::RateLimited,
            Reaction::Undecodable => ReactionView::Undecodable,
            Reaction::Leave(api_key, addr) => ReactionView::Leave(api_key@, *addr),
            Reaction::Ignore => ReactionView::Ignore,
        }
    }
}

/// What becomes of a text frame, given the rate limiter's answer: a frame
/// beyond the rate is dropped whatever it holds; a frame within the rate is
/// forwarded under the session's key if it holds a command.
pub open spec fn text_reaction(
    api_key: Seq<char>,
    conforms: bool,
    decoded: Option<GameCommand>,
) -> ReactionView {
    if !conforms {
        ReactionView::RateLimited
    } else {
        match decoded {
            Some(cmd) => ReactionView::Forward(api_key, cmd),
            None => ReactionView::Undecodable,
        }
    }
}

/// What a session has to do when it opens.
pub struct Opening {
    /// What the room is told.
    pub event: SocketEvent,
    /// Whether the session's key is recorded as a player of the room.
    pub records_player: bool,
}

/// One session of a socket.
pub struct ClientWsActor {
    room_token: String,
    api_key: String,
    team_name: String,
    rate_limiter: CommandMeter,
}

impl ClientWsActor {
    /// The key under which the session connected.
    pub closed spec fn key(&self) -> Seq<char> {
        self.api_key@
    }

    /// The team name that the session gave.
    pub closed spec fn team(&self) -> Seq<char> {
        self.team_name@
    }

    /// The token of the session's room.
    pub closed spec fn room(&self) -> Seq<char> {
        self.room_token@
    }

    /// A session for a socket that connected with this key and team name to
    /// the room with this token. It may send [`ACTIONS_PER_SECOND`] commands
    /// in a second.
    pub fn new(api_key: String, team_name: String, room_token: String) -> (r: ClientWsActor)
        ensures
            r.key() == api_key@,
            r.team() == team_name@,
            r.room() == room_token@,
    {
        let rate_limiter: CommandMeter = meter_per_second(ACTIONS_PER_SECOND);
        ClientWsActor { api_key, team_name, room_token, rate_limiter }
    }

    /// The key under which the session connected.
    pub fn api_key(&self) -> (r: &String)
        ensures
            r@ == self.key(),
    {
        &self.api_key
    }

    /// The token of the session's room.
    pub fn room_token(&self) -> (r: &String)
        ensures
            r@ == self.room(),
    {
        &self.room_token
    }

    /// Whether the session only watches.
    pub fn is_spectator(&self) -> (r: bool)
        ensures
            r == (self.key() == spectator_key()),
    {
        self.api_key == String::from_str("SPECTATOR")
    }

    /// What the session does when it opens: it joins its room, and a
    /// player's key is recorded with the room.
    pub fn started(&self, addr: u64) -> (r: Opening)
        ensures
            r.event matches SocketEvent::Join(api_key, team_name, a) && api_key@ == self.key()
                && team_name@ == self.team() && a == addr,
            r.records_player == (self.key() != spectator_key()),
    {
        Opening {
            event: SocketEvent::Join(self.api_key.clone(), self.team_name.clone(), addr),
            records_player: !self.is_spectator(),
        }
    }

    /// What the session tells its room when it has stopped.
    pub fn stopped(&self, addr: u64) -> (r: SocketEvent)
        ensures
            r matches SocketEvent::Leave(api_key, a) && api_key@ == self.key() && a == addr,
    {
        SocketEvent::Leave(self.api_key.clone(), addr)
    }

    /// What the session does with a text frame, given the rate limiter's
    /// verdict.
    pub fn react_to_text(&self, conforms: bool, decoded: Option<GameCommand>) -> (r: Reaction)
        ensures
            r@ == text_reaction(self.key(), conforms, decoded),
    {
        if conforms {
            match decoded {
                Some(cmd) => Reaction::Forward(
                    PlayerGameCommand { api_key: self.api_key.clone(), cmd },
                ),
                None => Reaction::Undecodable,
            }
        } else {
            Reaction::RateLimited
        }
    }

    /// What the session does with a frame. Only a text frame counts against
    /// the rate; whether it conforms is the rate limiter's to say.
    pub fn handle(&mut self, frame: Frame, addr: u64) -> (r: Reaction)
        ensures
            final(self).key() == old(self).key(),
            final(self).team() == old(self).team(),
            final(self).room() == old(self).room(),
            match frame {
                Frame::Text(decoded) => exists|conforms: bool|
                    r@ == #[trigger] text_reaction(old(self).key(), conforms, decoded),
                Frame::Close => r@ == ReactionView::Leave(old(self).key(), addr),
                Frame::Other => r@ == ReactionView::Ignore,
            },
    {
        match frame {
            Frame::Text(decoded) => {
                let conforms: bool = meter_check(&mut self.rate_limiter);
                let r: Reaction = self.react_to_text(conforms, decoded);
                assert(r@ == text_reaction(old(self).key(), conforms, decoded));
                r
            },
            Frame::Close => Reaction::Leave(self.api_key.clone(), addr),
            Frame::Other => Reaction::Ignore,
        }
    }

    /// The words with which a session that is told to stop closes its socket.
    pub fn stop_reason() -> (r: String)
        ensures
            r@ == "The server decided it didn't like you anymore. Or maybe you connected another client with the same API key"@,
    {
        String::from_str(
            "The server decided it didn't like you anymore. Or maybe you connected another client with the same API key",
        )
    }
}

} // verus!

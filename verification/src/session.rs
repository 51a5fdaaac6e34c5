//! The per-connection session: a state machine from inbound transport events
//! to broker commands and outbound frames.
//!
//! One session exists per live connection.  It starts in `Connecting`, issues
//! a `Connect` for its identity, and becomes `Active` when the broker's
//! confirmation arrives.  While it lives, a repeating liveness probe runs
//! every `HEARTBEAT_INTERVAL` time units; when the gap since the last
//! liveness signal exceeds `CLIENT_TIMEOUT`, the session treats the
//! connection as dead, hands back the `Disconnect` for its identity and
//! becomes `Stopped`.  However a session leaves `Active` — explicit close,
//! protocol error, or heartbeat timeout — the `Disconnect` is produced
//! exactly once: the first transition into `Stopped` yields it, every later
//! teardown yields nothing.
//!
//! The transport layer drives the machine: it performs the returned actions
//! (send a frame, dispatch a command, stop) and feeds events back in.

use vstd::prelude::*;
use crate::model::{ClientMatch, ClientUser};
use crate::server::{Connect, CreateMatch, Disconnect, JoinMatch, ListMatches};
use crate::wire;
use crate::wire::{WsDto, WsMessage, WsResponseDto};

verus! {

/// How often the liveness probe fires, in time units.
pub const HEARTBEAT_INTERVAL: u64 = 5;

/// The liveness gap beyond which a connection counts as dead.
pub const CLIENT_TIMEOUT: u64 = 10;

/// The session lifecycle; `Stopped` is terminal.
#[derive(Clone, Copy, Debug, PartialEq, Eq, Structural)]
pub enum SessionState {
    Connecting,
    Active,
    Stopped,
}

/// One connection's session: its assigned identity, the time of the last
/// observed liveness signal, and where it is in its lifecycle.
pub struct WsSession {
    pub id: u128,
    pub hb: u64,
    pub state: SessionState,
}

/// An inbound transport event, at the message boundary.
#[derive(Clone, Debug, PartialEq)]
pub enum InboundFrame {
    Ping(Vec<u8>),
    Pong,
    Text(String),
    Binary,
    Close,
    Continuation,
    ProtocolError,
}

/// What the transport layer must do after an inbound frame.
#[derive(Clone, Debug, PartialEq)]
pub enum FrameAction {
    /// Answer the ping with this payload; liveness was noted.
    Pong(Vec<u8>),
    /// Dispatch this decoded command to the broker.
    Command(WsDto),
    /// Drop the frame: malformed text or an unexpected binary frame.
    Ignore,
    /// Tear the session down.
    Stop,
}

/// A broker command with its dispatch mode: `Notify` is fire-and-forget,
/// `Ask` awaits the reply for this session alone.
#[derive(Clone, Copy, Debug, PartialEq)]
pub enum BrokerCommand {
    NotifyCreateMatch(CreateMatch),
    NotifyJoinMatch(JoinMatch),
    AskListMatches(ListMatches),
}

/// What the liveness probe decided.
#[derive(Clone, Copy, Debug, PartialEq)]
pub enum HeartbeatAction {
    /// Still live: send a ping.
    Ping,
    /// The gap exceeded `CLIENT_TIMEOUT`: deliver this disconnect and stop.
    TimedOut(Disconnect),
}

/// The liveness gap at `now` for a signal last seen at `hb` exceeds the
/// timeout.  A clock reading behind the last signal counts as live.
pub open spec fn hb_expired(hb: u64, now: u64) -> bool {
    now >= hb && now - hb > CLIENT_TIMEOUT
}

impl WsSession {
    /// A fresh session for identity `id`, with the clock at `now` as its
    /// first liveness signal.
    pub fn new(id: u128, now: u64) -> (s: WsSession)
        ensures
            s.id == id,
            s.hb == now,
            s.state == SessionState::Connecting,
    {
        WsSession { id, hb: now, state: SessionState::Connecting }
    }

    /// The `Connect` issued on start, binding this session's identity to the
    /// supplied display name.
    pub fn connect_command(&self, name: String) -> (c: Connect)
        ensures
            c.id == self.id,
            c.name == name,
    {
        Connect { id: self.id, name }
    }

    /// The broker confirmed the connect: the session becomes `Active` and
    /// the login confirmation frame goes back to the client.
    pub fn on_login_confirmed(&mut self, user: ClientUser) -> (r: String)
        requires
            old(self).state == SessionState::Connecting,
        ensures
            final(self).id == old(self).id,
            final(self).hb == old(self).hb,
            final(self).state == SessionState::Active,
            r@ == wire::spec_encode_response(WsResponseDto::LoginResponse(user)),
    {
        self.state = SessionState::Active;
        wire::encode_response(&WsResponseDto::LoginResponse(user))
    }

    /// One firing of the liveness probe.  On an expired gap the session
    /// stops and hands back the `Disconnect` for its identity; otherwise a
    /// ping goes out and nothing changes.
    pub fn heartbeat_tick(&mut self, now: u64) -> (a: HeartbeatAction)
        requires
            old(self).state != SessionState::Stopped,
        ensures
            final(self).id == old(self).id,
            final(self).hb == old(self).hb,
            hb_expired(old(self).hb, now) ==> a == HeartbeatAction::TimedOut(
                Disconnect { id: old(self).id },
            ) && final(self).state == SessionState::Stopped,
            !hb_expired(old(self).hb, now) ==> a == HeartbeatAction::Ping && final(self).state
                == old(self).state,
    {
        if now >= self.hb && now - self.hb > CLIENT_TIMEOUT {
            self.state = SessionState::Stopped;
            HeartbeatAction::TimedOut(Disconnect { id: self.id })
        } else {
            HeartbeatAction::Ping
        }
    }

    /// One inbound transport event.  Pings and pongs refresh the liveness
    /// signal; a text frame decodes to a command or is dropped; binary
    /// frames are dropped; close, continuation and protocol errors ask for
    /// teardown.  The state itself only changes through [`Self::on_stop`].
    pub fn handle_frame(&mut self, frame: InboundFrame, now: u64) -> (a: FrameAction)
        ensures
            final(self).id == old(self).id,
            final(self).state == old(self).state,
            match frame {
                InboundFrame::Ping(p) => final(self).hb == now && a == FrameAction::Pong(p),
                InboundFrame::Pong => final(self).hb == now && a == FrameAction::Ignore,
                InboundFrame::Text(t) => final(self).hb == old(self).hb && a == (
                match wire::spec_decode_request(t@) {
                    Some(d) => FrameAction::Command(d),
                    None => FrameAction::Ignore,
                }),
                InboundFrame::Binary => final(self).hb == old(self).hb && a == FrameAction::Ignore,
                InboundFrame::Close => final(self).hb == old(self).hb && a == FrameAction::Stop,
                InboundFrame::Continuation => final(self).hb == old(self).hb && a
                    == FrameAction::Stop,
                InboundFrame::ProtocolError => final(self).hb == old(self).hb && a
                    == FrameAction::Stop,
            },
    {
        match frame {
            InboundFrame::Ping(p) => {
                self.hb = now;
                FrameAction::Pong(p)
            },
            InboundFrame::Pong => {
                self.hb = now;
                FrameAction::Ignore
            },
            InboundFrame::Text(t) => {
                match wire::decode_request(t.as_str()) {
                    Some(d) => FrameAction::Command(d),
                    None => FrameAction::Ignore,
                }
            },
            InboundFrame::Binary => FrameAction::Ignore,
            InboundFrame::Close => FrameAction::Stop,
            InboundFrame::Continuation => FrameAction::Stop,
            InboundFrame::ProtocolError => FrameAction::Stop,
        }
    }

    /// Maps a decoded command onto the broker command this session issues
    /// for it, and its dispatch mode: creates and joins are fire-and-forget,
    /// a listing is a request with a reply.
    pub fn handle_ws_dto(&self, dto: WsDto) -> (c: BrokerCommand)
        ensures
            c == (match dto {
                WsDto::CreateMatch => BrokerCommand::NotifyCreateMatch(
                    CreateMatch { user_id: self.id },
                ),
                WsDto::JoinMatch(mid) => BrokerCommand::NotifyJoinMatch(
                    JoinMatch { match_id: mid, user_id: self.id },
                ),
                WsDto::ListMatches => BrokerCommand::AskListMatches(ListMatches),
            }),
    {
        match dto {
            WsDto::CreateMatch => BrokerCommand::NotifyCreateMatch(
                CreateMatch { user_id: self.id },
            ),
            WsDto::JoinMatch(mid) => BrokerCommand::NotifyJoinMatch(
                JoinMatch { match_id: mid, user_id: self.id },
            ),
            WsDto::ListMatches => BrokerCommand::AskListMatches(ListMatches),
        }
    }

    /// The reply to an asked listing, encoded for the client.
    pub fn on_list_matches_reply(&self, matches: Vec<ClientMatch>) -> (r: String)
        ensures
            r@ == wire::spec_encode_response(WsResponseDto::ListMatchesResponse(matches)),
    {
        wire::encode_response(&WsResponseDto::ListMatchesResponse(matches))
    }

    /// A command relayed to this connection's outbound channel, encoded for
    /// the client.
    pub fn on_ws_message(&self, msg: WsMessage) -> (r: String)
        ensures
            r@ == wire::spec_encode_request(msg.0),
    {
        wire::encode_request(&msg.0)
    }

    /// Teardown, for whatever reason the session leaves its lifecycle.  The
    /// first call hands back the `Disconnect` for this identity; once the
    /// session is `Stopped`, further calls yield nothing, so the disconnect
    /// is delivered exactly once.
    pub fn on_stop(&mut self) -> (d: Option<Disconnect>)
        ensures
            final(self).id == old(self).id,
            final(self).hb == old(self).hb,
            final(self).state == SessionState::Stopped,
            old(self).state != SessionState::Stopped ==> d == Some(
                Disconnect { id: old(self).id },
            ),
            old(self).state == SessionState::Stopped ==> d is None,
    {
        if self.state == SessionState::Stopped {
            None
        } else {
            self.state = SessionState::Stopped;
            Some(Disconnect { id: self.id })
        }
    }
}

} // verus!

use crate::ids::fresh_session_id;
use crate::messages::{ClientActorMessage, Connect, Disconnect};
use vstd::prelude::*;

verus! {

/// How often, in milliseconds, a connection checks that its client is alive.
pub const HEARTBEAT_INTERVAL_MS: u64 = 5000;

/// How long, in milliseconds, a client may stay silent before it is dropped.
pub const CLIENT_TIMEOUT_MS: u64 = 10000;

/// Where a connection is in its life.
#[derive(Clone, Copy, Debug, PartialEq, Eq, Structural)]
pub enum ConnState {
    Starting,
    Active,
    Stopping,
    Stopped,
}

/// The kinds of frame a client sends, as far as the connection reads them.
pub enum Frame {
    Ping,
    Pong,
    Text(String),
    Binary,
    Close,
    Continuation,
    Nop,
    Malformed,
}

/// What the connection does about a frame.
pub enum FrameAction {
    /// Answer the ping with a pong that carries its payload.
    Pong,
    /// Hand this text to the registry.
    Relay(ClientActorMessage),
    /// Close the stream, then stop.
    Close,
    /// Stop the connection.
    Stop,
    /// Nothing.
    Ignore,
}

/// What the connection does when its heartbeat timer fires.
pub enum TickAction {
    /// Probe the client with a ping.
    Ping,
    /// The client was silent too long: tell the registry, then stop.
    TimedOut(Disconnect),
    /// The connection is going away; the timer does nothing.
    Idle,
}

/// One client connection: its room, its session id, when its client was last
/// heard from, and its state.
pub struct WsConn {
    room: u128,
    hb: u64,
    id: u128,
    state: ConnState,
}

/// The connection still takes part: it has not begun to stop.
pub open spec fn is_live(s: ConnState) -> bool {
    s == ConnState::Starting || s == ConnState::Active
}

/// More than the timeout has passed between `last` and `now`; a clock that
/// reads earlier than `last` counts as no time passed.
pub open spec fn timed_out(last: u64, now: u64) -> bool {
    now > last && now - last > CLIENT_TIMEOUT_MS
}

impl WsConn {
    /// The room the connection joins.
    pub closed spec fn spec_room(&self) -> u128 {
        self.room
    }

    /// The connection's session id.
    pub closed spec fn spec_id(&self) -> u128 {
        self.id
    }

    /// When, in milliseconds, the client was last heard from.
    pub closed spec fn spec_last_seen(&self) -> u64 {
        self.hb
    }

    /// Where the connection is in its life.
    pub closed spec fn spec_state(&self) -> ConnState {
        self.state
    }

    /// A connection to `room` with a fresh random session id, heard from at
    /// `now`.
    pub fn new(room: u128, now: u64) -> (r: WsConn)
        ensures
            r.spec_room() == room,
            r.spec_last_seen() == now,
            r.spec_state() == ConnState::Starting,
    {
        WsConn::with_id(room, fresh_session_id(), now)
    }

    /// A connection to `room` with session id `id`, heard from at `now`.
    pub fn with_id(room: u128, id: u128, now: u64) -> (r: WsConn)
        ensures
            r.spec_room() == room,
            r.spec_id() == id,
            r.spec_last_seen() == now,
            r.spec_state() == ConnState::Starting,
    {
        WsConn { room, hb: now, id, state: ConnState::Starting }
    }

    /// The room the connection joins.
    pub fn room(&self) -> (r: u128)
        ensures
            r == self.spec_room(),
    {
        self.room
    }

    /// The connection's session id.
    pub fn id(&self) -> (r: u128)
        ensures
            r == self.spec_id(),
    {
        self.id
    }

    /// When, in milliseconds, the client was last heard from.
    pub fn last_seen(&self) -> (r: u64)
        ensures
            r == self.spec_last_seen(),
    {
        self.hb
    }

    /// Where the connection is in its life.
    pub fn state(&self) -> (r: ConnState)
        ensures
            r == self.spec_state(),
    {
        self.state
    }

    /// The request that joins this connection's session to its room, with
    /// `addr` as the handle that reaches the client.
    pub fn connect_request<S>(&self, addr: S) -> (r: Connect<S>)
        ensures
            r.addr == addr,
            r.lobby_id == self.spec_room(),
            r.self_id == self.spec_id(),
    {
        Connect { addr, lobby_id: self.room, self_id: self.id }
    }

    /// The request that takes this connection's session out of its room.
    pub fn disconnect_request(&self) -> (r: Disconnect)
        ensures
            r == (Disconnect { room_id: self.spec_room(), id: self.spec_id() }),
    {
        Disconnect { room_id: self.room, id: self.id }
    }

    /// Records how registration went: a starting connection becomes active,
    /// or begins to stop where the registry could not be reached. Returns
    /// whether the connection must stop.
    pub fn registered(&mut self, ok: bool) -> (stop: bool)
        ensures
            old(self).spec_state() == ConnState::Starting ==> final(self).spec_state() == (if ok {
                ConnState::Active
            } else {
                ConnState::Stopping
            }),
            old(self).spec_state() != ConnState::Starting ==> final(self).spec_state() == old(
                self,
            ).spec_state(),
            stop == (final(self).spec_state() == ConnState::Stopping),
            final(self).spec_room() == old(self).spec_room(),
            final(self).spec_id() == old(self).spec_id(),
            final(self).spec_last_seen() == old(self).spec_last_seen(),
    {
        if self.state == ConnState::Starting {
            if ok {
                self.state = ConnState::Active;
            } else {
                self.state = ConnState::Stopping;
            }
        }
        self.state == ConnState::Stopping
    }

    /// Decides what to do with a frame from the client that arrived at `now`.
    /// A ping or pong refreshes the time the client was last heard from; a
    /// ping is answered. Text goes to the registry as it is, for this
    /// connection's room and session, once the connection is active; before
    /// its registration is confirmed text is not relayed. A close stops the
    /// connection; so does any other frame (binary, continuation, malformed),
    /// which is a protocol violation. A connection that has begun to stop
    /// ignores every frame.
    pub fn handle(&mut self, frame: Frame, now: u64) -> (r: FrameAction)
        ensures
            final(self).spec_room() == old(self).spec_room(),
            final(self).spec_id() == old(self).spec_id(),
            !is_live(old(self).spec_state()) ==> r is Ignore && *final(self) == *old(self),
            is_live(old(self).spec_state()) ==> match frame {
                Frame::Ping => r is Pong && final(self).spec_last_seen() == now
                    && final(self).spec_state() == old(self).spec_state(),
                Frame::Pong => r is Ignore && final(self).spec_last_seen() == now
                    && final(self).spec_state() == old(self).spec_state(),
                Frame::Text(s) => (if old(self).spec_state() == ConnState::Active {
                    match r {
                        FrameAction::Relay(m) => m.id == old(self).spec_id() && m.room_id == old(
                            self,
                        ).spec_room() && m.msg == s,
                        _ => false,
                    }
                } else {
                    r is Ignore
                }) && *final(self) == *old(self),
                Frame::Nop => r is Ignore && *final(self) == *old(self),
                Frame::Close => r is Close && final(self).spec_state() == ConnState::Stopping
                    && final(self).spec_last_seen() == old(self).spec_last_seen(),
                Frame::Binary | Frame::Continuation | Frame::Malformed => r is Stop && final(self).spec_state()
                    == ConnState::Stopping && final(self).spec_last_seen() == old(
                    self,
                ).spec_last_seen(),
            },
    {
        if self.state != ConnState::Starting && self.state != ConnState::Active {
            return FrameAction::Ignore;
        }
        match frame {
            Frame::Ping => {
                self.hb = now;
                FrameAction::Pong
            },
            Frame::Pong => {
                self.hb = now;
                FrameAction::Ignore
            },
            Frame::Text(s) => {
                if self.state == ConnState::Active {
                    FrameAction::Relay(ClientActorMessage { id: self.id, msg: s, room_id: self.room })
                } else {
                    FrameAction::Ignore
                }
            },
            Frame::Nop => FrameAction::Ignore,
            Frame::Close => {
                self.state = ConnState::Stopping;
                FrameAction::Close
            },
            Frame::Binary | Frame::Continuation | Frame::Malformed => {
                self.state = ConnState::Stopping;
                FrameAction::Stop
            },
        }
    }

    /// Decides what the heartbeat timer does when it fires at `now`: a
    /// client silent for longer than the timeout is dropped, and the
    /// connection begins to stop; otherwise the client is probed.
    pub fn hb(&mut self, now: u64) -> (r: TickAction)
        ensures
            final(self).spec_room() == old(self).spec_room(),
            final(self).spec_id() == old(self).spec_id(),
            final(self).spec_last_seen() == old(self).spec_last_seen(),
            !is_live(old(self).spec_state()) ==> r is Idle && *final(self) == *old(self),
            is_live(old(self).spec_state()) && timed_out(old(self).spec_last_seen(), now) ==> r
                == TickAction::TimedOut(
                Disconnect { room_id: old(self).spec_room(), id: old(self).spec_id() },
            ) && final(self).spec_state() == ConnState::Stopping,
            is_live(old(self).spec_state()) && !timed_out(old(self).spec_last_seen(), now) ==> r
                is Ping && *final(self) == *old(self),
    {
        if self.state != ConnState::Starting && self.state != ConnState::Active {
            return TickAction::Idle;
        }
        if now > self.hb && now - self.hb > CLIENT_TIMEOUT_MS {
            self.state = ConnState::Stopping;
            TickAction::TimedOut(Disconnect { room_id: self.room, id: self.id })
        } else {
            TickAction::Ping
        }
    }

    /// Tears the connection down, from whatever state: it is stopped, and the
    /// returned request takes its session out of its room, which the registry
    /// does at most once however often it is sent.
    pub fn stopping(&mut self) -> (r: Disconnect)
        ensures
            r == (Disconnect { room_id: old(self).spec_room(), id: old(self).spec_id() }),
            final(self).spec_state() == ConnState::Stopped,
            final(self).spec_room() == old(self).spec_room(),
            final(self).spec_id() == old(self).spec_id(),
            final(self).spec_last_seen() == old(self).spec_last_seen(),
    {
        self.state = ConnState::Stopped;
        Disconnect { room_id: self.room, id: self.id }
    }
}

} // verus!

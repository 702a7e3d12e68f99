//! One client's websocket connection: its room, its id and name, the time
//! it was last heard from, and what each event on it makes it do.
use vstd::prelude::*;

use crate::ids::{lemma_random_uuid_not_nil, random_uuid};
use crate::messages::{ChangeRoom, ClientActorMessage, Disconnect, WsMessage};

verus! {

/// How often, in nanoseconds, a connection pings its client.
pub const HEARTBEAT_INTERVAL_NANOS: u64 = 5_000_000_000;

/// How long, in nanoseconds, a client may stay silent before it is dropped.
pub const CLIENT_TIMEOUT_NANOS: u64 = 10_000_000_000;

/// The bytes of a heartbeat ping: `PING`.
pub open spec fn ping_payload() -> Seq<u8> {
    seq![80u8, 73u8, 78u8, 71u8]
}

/// The status code and text of a websocket close frame.
#[derive(Debug, Clone, PartialEq, Eq)]
pub struct CloseReason {
    pub code: u16,
    pub description: Option<String>,
}

/// What arrives on a client's websocket.
#[derive(Debug, Clone, PartialEq, Eq)]
pub enum WsEvent {
    Ping(Vec<u8>),
    Pong(Vec<u8>),
    Binary(Vec<u8>),
    Close(Option<CloseReason>),
    Continuation,
    Nop,
    Text(String),
    /// The websocket protocol failed.
    ProtocolError,
}

/// What a connection does.
#[derive(Debug, Clone, PartialEq, Eq)]
pub enum WsAction {
    /// Answer a ping with these bytes.
    Pong(Vec<u8>),
    /// Ping the client with these bytes.
    Ping(Vec<u8>),
    /// Write these bytes to the client.
    Binary(Vec<u8>),
    /// Write this text to the client.
    Text(String),
    /// Close the websocket with this reason.
    Close(Option<CloseReason>),
    /// Stop the connection.
    Stop,
    /// Run `hb` every `HEARTBEAT_INTERVAL_NANOS`.
    StartHeartbeat,
    /// Register this connection's address with the lobby under `id`.
    Connect { id: u128 },
    /// Hand a client message to the lobby.
    ToLobby(ClientActorMessage),
    /// Tell the lobby that this client has gone away.
    Disconnect(Disconnect),
}

/// A client's connection.
pub struct WsConn {
    room: u128,
    hb: u64,
    id: u128,
    username: String,
}

impl WsConn {
    /// The room the client is in.
    pub closed spec fn room_view(&self) -> u128 {
        self.room
    }

    /// When the client was last heard from, in nanoseconds.
    pub closed spec fn heard_at(&self) -> u64 {
        self.hb
    }

    /// The client's id.
    pub closed spec fn id_view(&self) -> u128 {
        self.id
    }

    /// The client's name.
    pub closed spec fn username_view(&self) -> String {
        self.username
    }

    /// The notice to the lobby that this client has gone away.
    pub open spec fn disconnect_notice(&self) -> Disconnect {
        Disconnect { id: self.id_view(), username: self.username_view(), room_id: self.room_view() }
    }

    /// A new connection at time `now` for `username` in `room`, with a
    /// fresh random id (a version-4 UUID, never the nil id).
    pub fn new(room: u128, username: String, now: u64) -> (conn: WsConn)
        ensures
            conn.room_view() == room,
            conn.username_view() == username,
            conn.heard_at() == now,
            (conn.id_view() >> 76u128) & 0xfu128 == 4,
            (conn.id_view() >> 62u128) & 0x3u128 == 2,
            conn.id_view() != 0,
    {
        let id = random_uuid();
        proof {
            lemma_random_uuid_not_nil(id);
        }
        WsConn { room, hb: now, id, username }
    }

    /// The client's id.
    pub fn id(&self) -> (id: u128)
        ensures
            id == self.id_view(),
    {
        self.id
    }

    /// The room the client is in.
    pub fn room(&self) -> (room: u128)
        ensures
            room == self.room_view(),
    {
        self.room
    }

    /// On start: begin the heartbeat and register with the lobby.
    pub fn started(&self) -> (out: Vec<WsAction>)
        ensures
            out@ == seq![WsAction::StartHeartbeat, WsAction::Connect { id: self.id_view() }],
    {
        let mut out: Vec<WsAction> = Vec::new();
        out.push(WsAction::StartHeartbeat);
        out.push(WsAction::Connect { id: self.id });
        out
    }

    /// The lobby's answer to the registration: stop if it never arrived.
    pub fn connect_result(&self, delivered: bool) -> (out: Vec<WsAction>)
        ensures
            out@ == (if delivered {
                Seq::<WsAction>::empty()
            } else {
                seq![WsAction::Stop]
            }),
    {
        let mut out: Vec<WsAction> = Vec::new();
        if !delivered {
            out.push(WsAction::Stop);
        }
        out
    }

    /// On stopping: tell the lobby that the client has gone away.
    pub fn stopping(&self) -> (out: Vec<WsAction>)
        ensures
            out@ == seq![WsAction::Disconnect(self.disconnect_notice())],
    {
        let mut out: Vec<WsAction> = Vec::new();
        out.push(
            WsAction::Disconnect(
                Disconnect { id: self.id, username: self.username.clone(), room_id: self.room },
            ),
        );
        out
    }

    /// The heartbeat at time `now`: a client silent for longer than
    /// `CLIENT_TIMEOUT_NANOS` is dropped (the lobby is told, and the
    /// connection stops); otherwise it is pinged.
    pub fn hb(&self, now: u64) -> (out: Vec<WsAction>)
        ensures
            if now - self.heard_at() > CLIENT_TIMEOUT_NANOS {
                out@ == seq![WsAction::Disconnect(self.disconnect_notice()), WsAction::Stop]
            } else {
                out@.len() == 1 && (out@[0] matches WsAction::Ping(p) && p@ == ping_payload())
            },
    {
        let mut out: Vec<WsAction> = Vec::new();
        let silent = if now > self.hb { now - self.hb } else { 0 };
        if silent > CLIENT_TIMEOUT_NANOS {
            out.push(
                WsAction::Disconnect(
                    Disconnect { id: self.id, username: self.username.clone(), room_id: self.room },
                ),
            );
            out.push(WsAction::Stop);
        } else {
            let ping: Vec<u8> = vec![80u8, 73u8, 78u8, 71u8];
            assert(ping@ =~= ping_payload());
            out.push(WsAction::Ping(ping));
        }
        out
    }

    /// What arrives on the websocket at time `now`: pings and pongs mark the
    /// client as heard from (a ping is answered with its own bytes), binary
    /// data is echoed, text goes to the lobby, a close is returned and stops
    /// the connection, a continuation stops it, and a protocol error closes
    /// and stops it.
    pub fn handle_frame(&mut self, event: WsEvent, now: u64) -> (out: Vec<WsAction>)
        ensures
            final(self).room_view() == old(self).room_view(),
            final(self).id_view() == old(self).id_view(),
            final(self).username_view() == old(self).username_view(),
            final(self).heard_at() == (match event {
                WsEvent::Ping(_) | WsEvent::Pong(_) => now,
                _ => old(self).heard_at(),
            }),
            out@ == match event {
                WsEvent::Ping(bytes) => seq![WsAction::Pong(bytes)],
                WsEvent::Pong(_) => Seq::<WsAction>::empty(),
                WsEvent::Binary(bytes) => seq![WsAction::Binary(bytes)],
                WsEvent::Close(reason) => seq![WsAction::Close(reason), WsAction::Stop],
                WsEvent::Continuation => seq![WsAction::Stop],
                WsEvent::Nop => Seq::<WsAction>::empty(),
                WsEvent::Text(text) => seq![
                    WsAction::ToLobby(
                        ClientActorMessage {
                            id: old(self).id_view(),
                            username: old(self).username_view(),
                            msg: text,
                            room_id: old(self).room_view(),
                        },
                    ),
                ],
                WsEvent::ProtocolError => seq![WsAction::Close(None), WsAction::Stop],
            },
    {
        let mut out: Vec<WsAction> = Vec::new();
        match event {
            WsEvent::Ping(bytes) => {
                self.hb = now;
                out.push(WsAction::Pong(bytes));
            },
            WsEvent::Pong(_) => {
                self.hb = now;
            },
            WsEvent::Binary(bytes) => {
                out.push(WsAction::Binary(bytes));
            },
            WsEvent::Close(reason) => {
                out.push(WsAction::Close(reason));
                out.push(WsAction::Stop);
            },
            WsEvent::Continuation => {
                out.push(WsAction::Stop);
            },
            WsEvent::Nop => {},
            WsEvent::Text(text) => {
                out.push(
                    WsAction::ToLobby(
                        ClientActorMessage {
                            id: self.id,
                            username: self.username.clone(),
                            msg: text,
                            room_id: self.room,
                        },
                    ),
                );
            },
            WsEvent::ProtocolError => {
                out.push(WsAction::Close(None));
                out.push(WsAction::Stop);
            },
        }
        out
    }

    /// A text from the lobby is written to the client.
    pub fn handle_ws_message(&self, msg: WsMessage) -> (out: Vec<WsAction>)
        ensures
            out@ == seq![WsAction::Text(msg.0)],
    {
        let mut out: Vec<WsAction> = Vec::new();
        out.push(WsAction::Text(msg.0));
        out
    }

    /// The lobby moved the client to another room.
    pub fn handle_change_room(&mut self, msg: ChangeRoom)
        ensures
            final(self).room_view() == msg.0,
            final(self).id_view() == old(self).id_view(),
            final(self).username_view() == old(self).username_view(),
            final(self).heard_at() == old(self).heard_at(),
    {
        self.room = msg.0;
    }

}


/// A connection whose client sent a ping or pong at time `t` (which
/// `handle_frame` records as `heard_at`) is kept, not dropped, by every
/// heartbeat up to `t + CLIENT_TIMEOUT_NANOS`, and by every heartbeat
/// before `t`.
pub proof fn law_heard_client_is_kept(conn: WsConn, now: u64)
    requires
        now <= conn.heard_at() + CLIENT_TIMEOUT_NANOS,
    ensures
        !(now - conn.heard_at() > CLIENT_TIMEOUT_NANOS),
{
}

} // verus!

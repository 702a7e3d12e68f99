//! The messages that websocket connections and the lobby exchange.
use vstd::prelude::*;

verus! {

/// A text for a connection to write to its websocket.
#[derive(Debug, Clone, PartialEq, Eq)]
pub struct WsMessage(pub String);

/// A new connection `id`, reachable at `addr`, registers with the lobby.
#[derive(Debug, Clone)]
pub struct Connect<A> {
    pub addr: A,
    pub id: u128,
}

/// Client `id` moves from `old_room_id` to `new_room_id`.
#[derive(Debug, Clone, PartialEq, Eq)]
pub struct Switch {
    pub id: u128,
    pub username: String,
    pub old_room_id: u128,
    pub new_room_id: u128,
}

impl Switch {
    /// The switch that a join request makes: client `id` moves from
    /// `old_room_id` to `new_room_id`, under the placeholder name `username`.
    pub fn join_request(id: u128, old_room_id: u128, new_room_id: u128) -> (msg: Switch)
        ensures
            msg.id == id,
            msg.old_room_id == old_room_id,
            msg.new_room_id == new_room_id,
            msg.username@ == "username"@,
    {
        Switch { id, username: String::from_str("username"), old_room_id, new_room_id }
    }
}

/// Client `id`, last seen in `room_id`, has gone away.
#[derive(Debug, Clone, PartialEq, Eq)]
pub struct Disconnect {
    pub id: u128,
    pub username: String,
    pub room_id: u128,
}

/// Client `id` in `room_id` wrote the text `msg`.
#[derive(Debug, Clone, PartialEq, Eq)]
pub struct ClientActorMessage {
    pub id: u128,
    pub username: String,
    pub msg: String,
    pub room_id: u128,
}

/// The lobby tells a connection that it now belongs to the given room.
#[derive(Debug, Clone, PartialEq, Eq)]
pub struct ChangeRoom(pub u128);

} // verus!

//! A chat-room server and client state library: the lobby that tracks
//! sessions and rooms, the per-connection websocket state machine, the
//! login and signup decisions, and the client-side room and chat models.
use vstd::prelude::*;

pub mod ids;
pub mod user;
pub mod messages;
pub mod lobby;
pub mod ws;

verus! {

/// The id of the room that every client joins on connect.
pub const HOME_ROOM_ID: u128 = 0;

} // verus!

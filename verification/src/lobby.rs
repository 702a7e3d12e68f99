//! The lobby: which clients are connected, which rooms exist with which
//! members, and what each event makes the lobby send to whom.
use vstd::prelude::*;
use std::collections::{HashMap, HashSet};
use vstd::std_specs::iter::IteratorSpec;
use vstd::std_specs::hash::{spec_hash_keys_iter, spec_hash_map_iter};

use crate::HOME_ROOM_ID;
use crate::ids::{uuid_text, uuid_to_text, parse_uuid, uuid_parse_result};
use crate::messages::{ClientActorMessage, Connect, Disconnect, Switch};
use crate::user::{Room, room_json};

verus! {

broadcast use vstd::std_specs::hash::group_hash_axioms;

/// Something the lobby sends to a connected client.
#[derive(Debug, Clone, PartialEq, Eq)]
pub enum LobbyAction {
    /// Write `text` to client `to`'s websocket.
    SendText { to: u128, text: String },
    /// Tell client `to` that it now belongs to `room`.
    ChangeRoom { to: u128, room: u128 },
}

/// A `LobbyAction` with its text as a character sequence.
pub enum ActionView {
    SendText { to: u128, text: Seq<char> },
    ChangeRoom { to: u128, room: u128 },
}

impl View for LobbyAction {
    type V = ActionView;

    open spec fn view(&self) -> ActionView {
        match self {
            LobbyAction::SendText { to, text } => ActionView::SendText { to: *to, text: text@ },
            LobbyAction::ChangeRoom { to, room } => ActionView::ChangeRoom { to: *to, room: *room },
        }
    }
}

/// The views of a list of actions.
pub open spec fn view_actions(acts: Seq<LobbyAction>) -> Seq<ActionView> {
    acts.map_values(|a: LobbyAction| a@)
}

/// `walk` lists each element of `s` exactly once.
pub open spec fn is_walk(walk: Seq<u128>, s: Set<u128>) -> bool {
    walk.no_duplicates() && walk.to_set() == s
}

/// `text` sent to `to`, if `to` holds a session; nothing otherwise.
pub open spec fn direct(to: u128, text: Seq<char>, sessions: Set<u128>) -> Seq<ActionView> {
    if sessions.contains(to) {
        seq![ActionView::SendText { to, text }]
    } else {
        Seq::empty()
    }
}

/// `text` sent, in the order of `walk`, to each client of `walk` that holds
/// a session and is not `skip`.
pub open spec fn deliveries(
    walk: Seq<u128>,
    text: Seq<char>,
    sessions: Set<u128>,
    skip: Option<u128>,
) -> Seq<ActionView>
    decreases walk.len(),
{
    if walk.len() == 0 {
        Seq::empty()
    } else {
        let rest = deliveries(walk.drop_last(), text, sessions, skip);
        if skip == Some(walk.last()) {
            rest
        } else {
            rest + direct(walk.last(), text, sessions)
        }
    }
}

/// `seg` sends `text` once to each member of `members` that holds a
/// session, except `skip`, in some order.
pub open spec fn broadcast(
    seg: Seq<ActionView>,
    members: Set<u128>,
    text: Seq<char>,
    sessions: Set<u128>,
    skip: Option<u128>,
) -> bool {
    exists|walk: Seq<u128>|
        is_walk(walk, members) && seg == #[trigger] deliveries(walk, text, sessions, skip)
}

/// The members of room `room`, or no one where there is no such room.
pub open spec fn members_of(rooms: Map<u128, Set<u128>>, room: u128) -> Set<u128> {
    if rooms.contains_key(room) {
        rooms[room]
    } else {
        Set::empty()
    }
}

/// `seg` tells each member of the home room the current size of `room`.
pub open spec fn room_update(
    seg: Seq<ActionView>,
    rooms: Map<u128, Set<u128>>,
    room: u128,
    sessions: Set<u128>,
) -> bool {
    broadcast(
        seg,
        members_of(rooms, HOME_ROOM_ID),
        room_json(room, members_of(rooms, room).len()),
        sessions,
        None,
    )
}

/// The size of every room in the order of `walk`, sent to `client`.
pub open spec fn listing(
    walk: Seq<u128>,
    rooms: Map<u128, Set<u128>>,
    client: u128,
    sessions: Set<u128>,
) -> Seq<ActionView>
    decreases walk.len(),
{
    if walk.len() == 0 {
        Seq::empty()
    } else {
        listing(walk.drop_last(), rooms, client, sessions) + direct(
            client,
            room_json(walk.last(), rooms[walk.last()].len()),
            sessions,
        )
    }
}

/// `seg` tells `client` the size of every room, once each, in some order.
pub open spec fn room_listing(
    seg: Seq<ActionView>,
    rooms: Map<u128, Set<u128>>,
    client: u128,
    sessions: Set<u128>,
) -> bool {
    exists|walk: Seq<u128>|
        is_walk(walk, rooms.dom()) && seg == #[trigger] listing(walk, rooms, client, sessions)
}

/// The rooms after client `id` joins `room`; the room is made if missing.
pub open spec fn rooms_after_join(rooms: Map<u128, Set<u128>>, room: u128, id: u128) -> Map<
    u128,
    Set<u128>,
> {
    rooms.insert(room, members_of(rooms, room).insert(id))
}

/// The rooms after client `id` leaves `room`: a room of one member other
/// than the home room is closed, even where that member is not `id`.
pub open spec fn rooms_after_leave(rooms: Map<u128, Set<u128>>, room: u128, id: u128) -> Map<
    u128,
    Set<u128>,
> {
    if !rooms.contains_key(room) {
        rooms
    } else if rooms[room].len() > 1 || room == HOME_ROOM_ID {
        rooms.insert(room, rooms[room].remove(id))
    } else {
        rooms.remove(room)
    }
}

/// The index of the first space in `s` at or after `from`, or `s.len()`.
pub open spec fn first_space_from(s: Seq<char>, from: int) -> int
    decreases s.len() - from,
{
    if from >= s.len() {
        s.len() as int
    } else if s[from] == ' ' {
        from
    } else {
        first_space_from(s, from + 1)
    }
}

/// The second of the space-separated fields of `s`, if there is one.
pub open spec fn second_field(s: Seq<char>) -> Option<Seq<char>> {
    let i = first_space_from(s, 0);
    if i >= s.len() {
        None
    } else {
        Some(s.subrange(i + 1, first_space_from(s, i + 1)))
    }
}

/// A whisper is a message that starts with a backslash and `w`.
pub open spec fn is_whisper(s: Seq<char>) -> bool {
    s.len() >= 2 && s[0] == '\\' && s[1] == 'w'
}

/// The text the members of a room get when `username` disconnects.
pub open spec fn disconnected_text(username: Seq<char>) -> Seq<char> {
    username + " disconnected."@
}

/// The text the members of the old room get when `username` leaves it.
pub open spec fn left_text(username: Seq<char>) -> Seq<char> {
    username + " left the room."@
}

/// The text the members of the new room get when `username` joins it.
pub open spec fn joined_text(username: Seq<char>) -> Seq<char> {
    username + " just joined"@
}

/// The text a client gets with its own id after a switch.
pub open spec fn your_id_text(id: u128) -> Seq<char> {
    "your id is "@ + uuid_text(id)
}

/// The text the members of a room get when `username` writes `msg`.
pub open spec fn chat_text(username: Seq<char>, msg: Seq<char>) -> Seq<char> {
    username + ": "@ + msg
}

/// What a client that connects with id `id` is sent: its own id, the new
/// size of the home room for every member of the home room, and the size
/// of every room for itself.
pub open spec fn connect_reply(
    acts: Seq<ActionView>,
    id: u128,
    rooms: Map<u128, Set<u128>>,
    sessions: Set<u128>,
) -> bool {
    exists|update: Seq<ActionView>, list: Seq<ActionView>|
        #![trigger room_update(update, rooms, HOME_ROOM_ID, sessions), room_listing(list, rooms, id, sessions)]
        acts == seq![ActionView::SendText { to: id, text: uuid_text(id) }] + update + list
            && room_update(update, rooms, HOME_ROOM_ID, sessions) && room_listing(
            list,
            rooms,
            id,
            sessions,
        )
}

/// What is sent when connected client `id` of room `room` (with the members
/// `members` before it leaves) disconnects: the notice to the other members,
/// then the room's new size to the home room.
pub open spec fn disconnect_reply(
    acts: Seq<ActionView>,
    id: u128,
    username: Seq<char>,
    members: Set<u128>,
    room: u128,
    rooms: Map<u128, Set<u128>>,
    sessions: Set<u128>,
) -> bool {
    exists|notice: Seq<ActionView>, update: Seq<ActionView>|
        #![trigger broadcast(notice, members, disconnected_text(username), sessions, Some(id)), room_update(update, rooms, room, sessions)]
        acts == notice + update && broadcast(
            notice,
            members,
            disconnected_text(username),
            sessions,
            Some(id),
        ) && room_update(update, rooms, room, sessions)
}

/// The rooms after a switch of client `id` from `old_room` to `new_room`.
pub open spec fn rooms_after_switch(
    rooms: Map<u128, Set<u128>>,
    id: u128,
    old_room: u128,
    new_room: u128,
) -> Map<u128, Set<u128>> {
    rooms_after_join(rooms_after_leave(rooms, old_room, id), new_room, id)
}

/// A switch is handled (rather than failing on a missing room) when the
/// client is the nil id or the old room still exists after the switch.
pub open spec fn switch_allowed(
    rooms: Map<u128, Set<u128>>,
    id: u128,
    old_room: u128,
    new_room: u128,
) -> bool {
    id == HOME_ROOM_ID || rooms_after_switch(rooms, id, old_room, new_room).contains_key(old_room)
}

/// What a switch of client `id` sends, in this order: the old room's new
/// size and then the new room's new size to the home room; the room change
/// to the client; the leave notice to the rest of the old room (not for the
/// nil id); the join notice to the rest of the new room; the client's id to
/// the client. `mid` are the rooms after leaving, `rooms` after joining.
pub open spec fn switch_reply(
    acts: Seq<ActionView>,
    id: u128,
    username: Seq<char>,
    old_room: u128,
    new_room: u128,
    mid: Map<u128, Set<u128>>,
    rooms: Map<u128, Set<u128>>,
    sessions: Set<u128>,
) -> bool {
    exists|
        old_update: Seq<ActionView>,
        new_update: Seq<ActionView>,
        left: Seq<ActionView>,
        joined: Seq<ActionView>,
    |
        #![trigger room_update(old_update, mid, old_room, sessions), room_update(new_update, rooms, new_room, sessions), broadcast(left, members_of(rooms, old_room), left_text(username), sessions, Some(id)), broadcast(joined, members_of(rooms, new_room), joined_text(username), sessions, Some(id))]
        {
            &&& acts == old_update + new_update + (if sessions.contains(id) {
                seq![ActionView::ChangeRoom { to: id, room: new_room }]
            } else {
                Seq::empty()
            }) + left + joined + direct(id, your_id_text(id), sessions)
            &&& room_update(old_update, mid, old_room, sessions)
            &&& room_update(new_update, rooms, new_room, sessions)
            &&& id == HOME_ROOM_ID ==> left == Seq::<ActionView>::empty()
            &&& id != HOME_ROOM_ID ==> broadcast(
                left,
                members_of(rooms, old_room),
                left_text(username),
                sessions,
                Some(id),
            )
            &&& broadcast(
                joined,
                members_of(rooms, new_room),
                joined_text(username),
                sessions,
                Some(id),
            )
        }
}

/// A client message is handled (rather than failing) when, for a whisper,
/// its second field parses as a UUID, and otherwise its room exists.
pub open spec fn client_message_allowed(
    rooms: Map<u128, Set<u128>>,
    msg: Seq<char>,
    room: u128,
) -> bool {
    if is_whisper(msg) {
        second_field(msg) matches Some(target) ==> uuid_parse_result(target) is Some
    } else {
        rooms.contains_key(room)
    }
}

/// What a client message sends: a whisper goes, unchanged, to the client
/// its second field names (nothing if there is no second field); any other
/// message goes, prefixed with the sender's name, to the rest of its room.
pub open spec fn client_message_reply(
    acts: Seq<ActionView>,
    id: u128,
    username: Seq<char>,
    msg: Seq<char>,
    room: u128,
    rooms: Map<u128, Set<u128>>,
    sessions: Set<u128>,
) -> bool {
    if is_whisper(msg) {
        match second_field(msg) {
            None => acts == Seq::<ActionView>::empty(),
            Some(target) => acts == direct(uuid_parse_result(target)->0, msg, sessions),
        }
    } else {
        broadcast(acts, rooms[room], chat_text(username, msg), sessions, Some(id))
    }
}

/// The lobby's invariant on rooms: the home room exists, every room is
/// finite, and every room other than the home room has a member.
pub open spec fn rooms_inv(rooms: Map<u128, Set<u128>>) -> bool {
    &&& rooms.contains_key(HOME_ROOM_ID)
    &&& forall|r: u128| #[trigger] rooms.contains_key(r) ==> rooms[r].finite()
    &&& forall|r: u128| #[trigger] rooms.contains_key(r) && r != HOME_ROOM_ID ==> rooms[r].len() > 0
}

/// The client an action is addressed to.
pub open spec fn recipient(a: ActionView) -> u128 {
    match a {
        ActionView::SendText { to, .. } => to,
        ActionView::ChangeRoom { to, .. } => to,
    }
}

/// Every action of `acts` is addressed to a client that holds a session.
pub open spec fn addressed_to(acts: Seq<ActionView>, sessions: Set<u128>) -> bool {
    forall|i: int| 0 <= i < acts.len() ==> sessions.contains(#[trigger] recipient(acts[i]))
}

/// Joining a room keeps the invariant on rooms.
pub proof fn lemma_join_keeps_inv(rooms: Map<u128, Set<u128>>, room: u128, id: u128)
    requires
        rooms_inv(rooms),
    ensures
        rooms_inv(rooms_after_join(rooms, room, id)),
{
    let after = rooms_after_join(rooms, room, id);
    assert(members_of(rooms, room).finite());
    assert(after[room].contains(id));
    assert(after[room].len() > 0) by {
        vstd::set_lib::lemma_set_empty_equivalency_len(after[room]);
        if after[room].len() == 0 {
            assert(after[room] =~= Set::empty());
        }
    }
}

/// Leaving a room keeps the invariant on rooms.
pub proof fn lemma_leave_keeps_inv(rooms: Map<u128, Set<u128>>, room: u128, id: u128)
    requires
        rooms_inv(rooms),
    ensures
        rooms_inv(rooms_after_leave(rooms, room, id)),
{
    let after = rooms_after_leave(rooms, room, id);
    if rooms.contains_key(room) && (rooms[room].len() > 1 || room == HOME_ROOM_ID) {
        assert(after[room].finite());
        if room != HOME_ROOM_ID {
            assert(after[room].len() > 0);
        }
    }
}

/// `deliveries` only addresses clients that hold a session.
pub proof fn lemma_deliveries_addressed(
    walk: Seq<u128>,
    text: Seq<char>,
    sessions: Set<u128>,
    skip: Option<u128>,
)
    ensures
        addressed_to(deliveries(walk, text, sessions, skip), sessions),
    decreases walk.len(),
{
    if walk.len() > 0 {
        lemma_deliveries_addressed(walk.drop_last(), text, sessions, skip);
    }
}

/// `listing` only addresses clients that hold a session.
pub proof fn lemma_listing_addressed(
    walk: Seq<u128>,
    rooms: Map<u128, Set<u128>>,
    client: u128,
    sessions: Set<u128>,
)
    ensures
        addressed_to(listing(walk, rooms, client, sessions), sessions),
    decreases walk.len(),
{
    if walk.len() > 0 {
        lemma_listing_addressed(walk.drop_last(), rooms, client, sessions);
    }
}

/// Every broadcast only addresses clients that hold a session.
pub proof fn lemma_broadcast_addressed(
    seg: Seq<ActionView>,
    members: Set<u128>,
    text: Seq<char>,
    sessions: Set<u128>,
    skip: Option<u128>,
)
    requires
        broadcast(seg, members, text, sessions, skip),
    ensures
        addressed_to(seg, sessions),
{
    let walk = choose|walk: Seq<u128>|
        is_walk(walk, members) && seg == #[trigger] deliveries(walk, text, sessions, skip);
    lemma_deliveries_addressed(walk, text, sessions, skip);
}

/// Every room listing only addresses clients that hold a session.
pub proof fn lemma_room_listing_addressed(
    seg: Seq<ActionView>,
    rooms: Map<u128, Set<u128>>,
    client: u128,
    sessions: Set<u128>,
)
    requires
        room_listing(seg, rooms, client, sessions),
    ensures
        addressed_to(seg, sessions),
{
    let walk = choose|walk: Seq<u128>|
        is_walk(walk, rooms.dom()) && seg == #[trigger] listing(walk, rooms, client, sessions);
    lemma_listing_addressed(walk, rooms, client, sessions);
}

/// Two lists of actions addressed to connected clients, one after the
/// other, are addressed to connected clients.
pub proof fn lemma_addressed_concat(a: Seq<ActionView>, b: Seq<ActionView>, sessions: Set<u128>)
    requires
        addressed_to(a, sessions),
        addressed_to(b, sessions),
    ensures
        addressed_to(a + b, sessions),
{
    assert forall|i: int| 0 <= i < (a + b).len() implies sessions.contains(
        #[trigger] recipient((a + b)[i]),
    ) by {
        if i < a.len() {
            assert((a + b)[i] == a[i]);
        } else {
            assert((a + b)[i] == b[i - a.len()]);
        }
    }
}

/// What `deliveries` sends: `text`, to connected clients of `walk` other
/// than `skip`, each at most once if `walk` has no duplicates, and to every
/// such client.
pub proof fn lemma_deliveries_exact(
    walk: Seq<u128>,
    text: Seq<char>,
    sessions: Set<u128>,
    skip: Option<u128>,
)
    ensures
        forall|i: int|
            0 <= i < deliveries(walk, text, sessions, skip).len() ==> {
                let a = #[trigger] deliveries(walk, text, sessions, skip)[i];
                &&& a == ActionView::SendText { to: recipient(a), text }
                &&& walk.contains(recipient(a))
                &&& sessions.contains(recipient(a))
                &&& skip != Some(recipient(a))
            },
        walk.no_duplicates() ==> forall|i: int, j: int|
            0 <= i < j < deliveries(walk, text, sessions, skip).len() ==> recipient(
                #[trigger] deliveries(walk, text, sessions, skip)[i],
            ) != recipient(#[trigger] deliveries(walk, text, sessions, skip)[j]),
        forall|c: u128|
            walk.contains(c) && sessions.contains(c) && skip != Some(c) ==> exists|i: int|
                0 <= i < deliveries(walk, text, sessions, skip).len() && recipient(
                    #[trigger] deliveries(walk, text, sessions, skip)[i],
                ) == c,
    decreases walk.len(),
{
    if walk.len() > 0 {
        let rest = walk.drop_last();
        let last = walk.last();
        lemma_deliveries_exact(rest, text, sessions, skip);
        let d = deliveries(walk, text, sessions, skip);
        let dr = deliveries(rest, text, sessions, skip);
        assert forall|i: int| 0 <= i < dr.len() implies rest.contains(#[trigger] recipient(dr[i]))
            && walk.contains(recipient(dr[i])) by {
            let a = dr[i];
            assert(rest.contains(recipient(a)));
            let k = choose|k: int| 0 <= k < rest.len() && rest[k] == recipient(a);
            assert(walk[k] == recipient(a));
        }
        assert forall|c: u128|
            walk.contains(c) && sessions.contains(c) && skip != Some(c) implies exists|i: int|
                0 <= i < d.len() && recipient(#[trigger] d[i]) == c by {
            let k = choose|k: int| 0 <= k < walk.len() && walk[k] == c;
            if k < walk.len() - 1 {
                assert(rest[k] == c);
                assert(rest.contains(c));
                let i = choose|i: int| 0 <= i < dr.len() && recipient(#[trigger] dr[i]) == c;
                assert(d[i] == dr[i]);
            } else {
                assert(d[dr.len() as int] == ActionView::SendText { to: c, text });
            }
        }
        if walk.no_duplicates() {
            assert(rest.no_duplicates());
            assert forall|i: int, j: int| 0 <= i < j < d.len() implies recipient(#[trigger] d[i])
                != recipient(#[trigger] d[j]) by {
                if j == dr.len() {
                    assert(rest.contains(recipient(dr[i])));
                    let k = choose|k: int| 0 <= k < rest.len() && rest[k] == recipient(dr[i]);
                    assert(walk[k] == rest[k]);
                } else {
                    assert(d[i] == dr[i] && d[j] == dr[j]);
                }
            }
        }
    }
}

/// A broadcast sends `text` exactly once to each connected member of
/// `members` other than `skip`, and to no one else: in particular the
/// sender of a room message never gets its own message back.
pub proof fn law_broadcast_reaches_each_other_member_once(
    seg: Seq<ActionView>,
    members: Set<u128>,
    text: Seq<char>,
    sessions: Set<u128>,
    skip: Option<u128>,
)
    requires
        broadcast(seg, members, text, sessions, skip),
    ensures
        forall|i: int|
            0 <= i < seg.len() ==> {
                &&& #[trigger] seg[i] == ActionView::SendText { to: recipient(seg[i]), text }
                &&& members.contains(recipient(seg[i]))
                &&& sessions.contains(recipient(seg[i]))
                &&& skip != Some(recipient(seg[i]))
            },
        forall|i: int, j: int|
            0 <= i < j < seg.len() ==> recipient(#[trigger] seg[i]) != recipient(#[trigger] seg[j]),
        forall|c: u128|
            members.contains(c) && sessions.contains(c) && skip != Some(c) ==> exists|i: int|
                0 <= i < seg.len() && recipient(#[trigger] seg[i]) == c,
{
    let walk = choose|walk: Seq<u128>|
        is_walk(walk, members) && seg == #[trigger] deliveries(walk, text, sessions, skip);
    lemma_deliveries_exact(walk, text, sessions, skip);
    assert forall|c: u128| members.contains(c) implies walk.contains(c) by {
        assert(walk.to_set().contains(c));
    }
    assert forall|c: u128| walk.contains(c) implies members.contains(c) by {
        assert(walk.to_set().contains(c));
    }
}

/// The size of room `room` in `rooms`, sent to `client`.
pub open spec fn size_notice(client: u128, rooms: Map<u128, Set<u128>>, room: u128) -> ActionView {
    ActionView::SendText { to: client, text: room_json(room, rooms[room].len()) }
}

/// The room sizes of `listing`: one for each room of `walk`, in its order,
/// when `client` is connected; nothing otherwise.
pub proof fn lemma_listing_exact(
    walk: Seq<u128>,
    rooms: Map<u128, Set<u128>>,
    client: u128,
    sessions: Set<u128>,
)
    ensures
        listing(walk, rooms, client, sessions).len() == if sessions.contains(client) {
            walk.len()
        } else {
            0
        },
        sessions.contains(client) ==> forall|i: int|
            0 <= i < walk.len() ==> #[trigger] listing(walk, rooms, client, sessions)[i]
                == size_notice(client, rooms, walk[i]),
    decreases walk.len(),
{
    if walk.len() > 0 {
        lemma_listing_exact(walk.drop_last(), rooms, client, sessions);
    }
}

/// A client that connects is told the size of every room, once for each
/// room, and nothing else (a client that is not connected is told nothing).
pub proof fn law_room_listing_tells_every_room_once(
    seg: Seq<ActionView>,
    rooms: Map<u128, Set<u128>>,
    client: u128,
    sessions: Set<u128>,
)
    requires
        room_listing(seg, rooms, client, sessions),
    ensures
        !sessions.contains(client) ==> seg.len() == 0,
        sessions.contains(client) ==> seg.len() == rooms.dom().len(),
        sessions.contains(client) ==> forall|i: int|
            0 <= i < seg.len() ==> exists|r: u128|
                rooms.contains_key(r) && #[trigger] seg[i] == size_notice(client, rooms, r),
        sessions.contains(client) ==> forall|r: u128|
            #[trigger] rooms.contains_key(r) ==> exists|i: int|
                0 <= i < seg.len() && seg[i] == size_notice(client, rooms, r),
{
    let walk = choose|walk: Seq<u128>|
        is_walk(walk, rooms.dom()) && seg == #[trigger] listing(walk, rooms, client, sessions);
    lemma_listing_exact(walk, rooms, client, sessions);
    walk.unique_seq_to_set();
    if sessions.contains(client) {
        assert forall|i: int| 0 <= i < seg.len() implies exists|r: u128|
            rooms.contains_key(r) && #[trigger] seg[i] == size_notice(client, rooms, r) by {
            assert(walk.to_set().contains(walk[i]));
        }
        assert forall|r: u128| #[trigger] rooms.contains_key(r) implies exists|i: int|
            0 <= i < seg.len() && seg[i] == size_notice(client, rooms, r) by {
            assert(walk.to_set().contains(r));
            let i = choose|i: int| 0 <= i < walk.len() && walk[i] == r;
            assert(seg[i] == size_notice(client, rooms, r));
        }
    }
}

/// Leaving a room: a room that did not exist stays missing and nothing
/// changes; every other room keeps its members; the home room always stays;
/// a room with more than one member stays; and where the room stays, its
/// members are exactly the old members other than the leaving client.
pub proof fn law_leave_removes_only_the_client(
    rooms: Map<u128, Set<u128>>,
    room: u128,
    id: u128,
)
    ensures
        !rooms.contains_key(room) ==> rooms_after_leave(rooms, room, id) == rooms,
        forall|r: u128|
            r != room ==> (#[trigger] rooms_after_leave(rooms, room, id).contains_key(r)
                == rooms.contains_key(r) && (rooms.contains_key(r) ==> rooms_after_leave(
                rooms,
                room,
                id,
            )[r] == rooms[r])),
        rooms.contains_key(room) && (room == HOME_ROOM_ID || rooms[room].len() > 1)
            ==> rooms_after_leave(rooms, room, id).contains_key(room),
        rooms_after_leave(rooms, room, id).contains_key(room) ==> forall|c: u128|
            #[trigger] rooms_after_leave(rooms, room, id)[room].contains(c) == (
            rooms[room].contains(c) && c != id),
{
}

/// Joining a room: the room exists afterwards, its members are exactly the
/// old members (none if it did not exist) and the joining client, and every
/// other room is unchanged.
pub proof fn law_join_adds_only_the_client(rooms: Map<u128, Set<u128>>, room: u128, id: u128)
    ensures
        rooms_after_join(rooms, room, id).contains_key(room),
        forall|c: u128|
            #[trigger] rooms_after_join(rooms, room, id)[room].contains(c) == (c == id || (
            rooms.contains_key(room) && rooms[room].contains(c))),
        forall|r: u128|
            r != room ==> (#[trigger] rooms_after_join(rooms, room, id).contains_key(r)
                == rooms.contains_key(r) && (rooms.contains_key(r) ==> rooms_after_join(
                rooms,
                room,
                id,
            )[r] == rooms[r])),
{
}

/// The text of a room message is the sender's name, `": "`, and the whole
/// message, in that order and nothing else.
pub proof fn law_chat_text_is_name_and_whole_message(username: Seq<char>, msg: Seq<char>)
    ensures
        chat_text(username, msg).len() == username.len() + 2 + msg.len(),
        chat_text(username, msg).subrange(0, username.len() as int) == username,
        chat_text(username, msg)[username.len() as int] == ':',
        chat_text(username, msg)[username.len() as int + 1] == ' ',
        chat_text(username, msg).subrange(username.len() as int + 2, chat_text(username, msg).len() as int)
            == msg,
{
    reveal_strlit(": ");
    assert(chat_text(username, msg).subrange(0, username.len() as int) =~= username);
    assert(chat_text(username, msg).subrange(
        username.len() as int + 2,
        chat_text(username, msg).len() as int,
    ) =~= msg);
}

/// The notices about a client begin with its whole name and end with a
/// fixed text: ` disconnected.`, ` left the room.`, ` just joined`.
pub proof fn law_notices_start_with_the_name(username: Seq<char>)
    ensures
        disconnected_text(username).subrange(0, username.len() as int) == username,
        disconnected_text(username).subrange(
            username.len() as int,
            disconnected_text(username).len() as int,
        ) == " disconnected."@,
        left_text(username).subrange(0, username.len() as int) == username,
        left_text(username).subrange(username.len() as int, left_text(username).len() as int)
            == " left the room."@,
        joined_text(username).subrange(0, username.len() as int) == username,
        joined_text(username).subrange(username.len() as int, joined_text(username).len() as int)
            == " just joined"@,
{
    assert(disconnected_text(username).subrange(0, username.len() as int) =~= username);
    assert(disconnected_text(username).subrange(
        username.len() as int,
        disconnected_text(username).len() as int,
    ) =~= " disconnected."@);
    assert(left_text(username).subrange(0, username.len() as int) =~= username);
    assert(left_text(username).subrange(username.len() as int, left_text(username).len() as int)
        =~= " left the room."@);
    assert(joined_text(username).subrange(0, username.len() as int) =~= username);
    assert(joined_text(username).subrange(
        username.len() as int,
        joined_text(username).len() as int,
    ) =~= " just joined"@);
}

/// A client that was not connected, connects (joining the home room) and
/// then disconnects from the home room leaves the sessions and the rooms
/// exactly as they were.
pub proof fn law_connect_then_disconnect_restores<A>(
    sessions: Map<u128, A>,
    rooms: Map<u128, Set<u128>>,
    id: u128,
    addr: A,
)
    requires
        rooms_inv(rooms),
        !sessions.contains_key(id),
        !rooms[HOME_ROOM_ID].contains(id),
    ensures
        sessions.insert(id, addr).remove(id) == sessions,
        rooms_after_leave(rooms_after_join(rooms, HOME_ROOM_ID, id), HOME_ROOM_ID, id) == rooms,
{
    assert(sessions.insert(id, addr).remove(id) =~= sessions);
    let joined = rooms_after_join(rooms, HOME_ROOM_ID, id);
    assert(joined[HOME_ROOM_ID].remove(id) =~= rooms[HOME_ROOM_ID]);
    assert(rooms_after_leave(joined, HOME_ROOM_ID, id) =~= rooms);
}

/// Joining a room that does not exist (other than the home room) and
/// leaving it again leaves the rooms exactly as they were: the room made
/// for the join is closed by the leave.
pub proof fn law_join_fresh_room_then_leave_restores(
    rooms: Map<u128, Set<u128>>,
    room: u128,
    id: u128,
)
    requires
        !rooms.contains_key(room),
        room != HOME_ROOM_ID,
    ensures
        rooms_after_leave(rooms_after_join(rooms, room, id), room, id) == rooms,
{
    let joined = rooms_after_join(rooms, room, id);
    assert(joined[room] =~= set![id]);
    assert(joined[room].len() == 1);
    assert(rooms_after_leave(joined, room, id) =~= rooms);
}

/// Whether `text` starts with a backslash and `w`.
fn whisper_prefix(text: &str) -> (b: bool)
    ensures
        b == is_whisper(text@),
{
    let n = text.unicode_len();
    n >= 2 && text.get_char(0) == '\\' && text.get_char(1) == 'w'
}

/// The index of the first space in `text` at or after `from`, or its length.
fn find_space(text: &str, len: usize, from: usize) -> (i: usize)
    requires
        len == text@.len(),
        from <= len,
    ensures
        i == first_space_from(text@, from as int),
        from <= i <= len,
{
    let mut i = from;
    while i < len && text.get_char(i) != ' '
        invariant
            len == text@.len(),
            from <= i <= len,
            first_space_from(text@, i as int) == first_space_from(text@, from as int),
        decreases len - i,
    {
        i = i + 1;
    }
    i
}

/// The second space-separated field of `text`, if there is one.
fn second_field_of(text: &str) -> (field: Option<String>)
    ensures
        field is None <==> second_field(text@) is None,
        field matches Some(f) ==> second_field(text@) == Some(f@),
{
    let len = text.unicode_len();
    let i = find_space(text, len, 0);
    if i >= len {
        None
    } else {
        let j = find_space(text, len, i + 1);
        Some(String::from_str(text.substring_char(i + 1, j)))
    }
}

/// The state of the lobby: the connected clients with their addresses,
/// and the rooms with their members.
pub struct Lobby<A> {
    sessions: HashMap<u128, A>,
    rooms: HashMap<u128, HashSet<u128>>,
}

impl<A> Default for Lobby<A> {
    /// An empty lobby with an empty home room.
    fn default() -> (lobby: Self)
        ensures
            lobby.session_map() == Map::<u128, A>::empty(),
            lobby.rooms_view() == Map::<u128, Set<u128>>::empty().insert(HOME_ROOM_ID, Set::empty()),
            rooms_inv(lobby.rooms_view()),
    {
        let mut rooms: HashMap<u128, HashSet<u128>> = HashMap::new();
        rooms.insert(HOME_ROOM_ID, HashSet::new());
        let lobby = Lobby { sessions: HashMap::new(), rooms };
        assert(lobby.rooms_view() =~= Map::<u128, Set<u128>>::empty().insert(
            HOME_ROOM_ID,
            Set::empty(),
        ));
        lobby
    }
}

impl<A> Lobby<A> {
    /// The connected clients and their addresses.
    pub closed spec fn session_map(&self) -> Map<u128, A> {
        self.sessions@
    }

    /// The ids of the connected clients.
    pub open spec fn sessions_view(&self) -> Set<u128> {
        self.session_map().dom()
    }

    /// The rooms and their members.
    pub closed spec fn rooms_view(&self) -> Map<u128, Set<u128>> {
        self.rooms@.map_values(|s: HashSet<u128>| s@)
    }

    /// The text `message` for client `id_to`, if it is connected.
    fn send_message_to_client(&self, message: &String, id_to: u128) -> (out: Vec<LobbyAction>)
        ensures
            view_actions(out@) == direct(id_to, message@, self.sessions_view()),
    {
        let mut out: Vec<LobbyAction> = Vec::new();
        if self.sessions.contains_key(&id_to) {
            out.push(LobbyAction::SendText { to: id_to, text: message.clone() });
        }
        proof {
            assert(view_actions(out@) =~= direct(id_to, message@, self.sessions_view()));
        }
        out
    }

    /// `msg` for every connected member of `members` but `skip`.
    fn send_to_members(&self, msg: &String, members: &HashSet<u128>, skip: Option<u128>) -> (out:
        Vec<LobbyAction>)
        ensures
            broadcast(view_actions(out@), members@, msg@, self.sessions_view(), skip),
    {
        let ghost walk = spec_hash_keys_iter(members).remaining().unref();
        let ghost sessions = self.sessions_view();
        let mut out: Vec<LobbyAction> = Vec::new();
        assert(walk.take(walk.len() as int) =~= walk);
        for c in it: members.iter()
            invariant
                it.seq().unref() == walk,
                walk.take(walk.len() as int) == walk,
                sessions == self.sessions_view(),
                view_actions(out@) == deliveries(walk.take(it.index()), msg@, sessions, skip),
            ensures
                view_actions(out@) == deliveries(walk, msg@, sessions, skip),
        {
            let ghost i = it.index();
            let ghost before = out@;
            if skip != Some(*c) {
                let mut single = self.send_message_to_client(msg, *c);
                let ghost sent = single@;
                out.append(&mut single);
                proof {
                    assert(view_actions(out@) =~= view_actions(before) + view_actions(sent));
                }
            }
            proof {
                assert(walk.take(i + 1).drop_last() =~= walk.take(i));
                assert(walk.take(i + 1).last() == *c);
            }
        }
        assert(is_walk(walk, members@));
        out
    }

    /// `msg` for every connected member of room `room_id` but `id`. The
    /// room must exist.
    fn send_message_to_room(&self, msg: &String, room_id: u128, id: u128) -> (out: Vec<
        LobbyAction,
    >)
        requires
            self.rooms_view().contains_key(room_id),
        ensures
            broadcast(
                view_actions(out@),
                self.rooms_view()[room_id],
                msg@,
                self.sessions_view(),
                Some(id),
            ),
    {
        let members = self.rooms.get(&room_id).unwrap();
        self.send_to_members(msg, members, Some(id))
    }

    /// The current size of room `room_id`, for every member of the home room.
    fn send_updated_room_info(&self, room_id: u128) -> (out: Vec<LobbyAction>)
        ensures
            room_update(view_actions(out@), self.rooms_view(), room_id, self.sessions_view()),
    {
        let members: usize = match self.rooms.get(&room_id) {
            Some(set) => set.len(),
            None => 0,
        };
        let msg = Room::json_from_values(room_id, members);
        match self.rooms.get(&HOME_ROOM_ID) {
            Some(home) => self.send_to_members(&msg, home, None),
            None => {
                let out: Vec<LobbyAction> = Vec::new();
                proof {
                    let walk = Seq::<u128>::empty();
                    assert(walk.to_set() =~= Set::<u128>::empty());
                    assert(view_actions(out@) =~= deliveries(walk, msg@, self.sessions_view(), None));
                }
                out
            },
        }
    }

    /// The size of every room, for client `client_id`.
    fn send_room_info_to_client(&self, client_id: u128) -> (out: Vec<LobbyAction>)
        ensures
            room_listing(view_actions(out@), self.rooms_view(), client_id, self.sessions_view()),
    {
        let ghost pairs = spec_hash_map_iter(&self.rooms).remaining();
        let ghost walk = pairs.map_values(|p: (&u128, &HashSet<u128>)| *p.0);
        let ghost rooms = self.rooms_view();
        let ghost sessions = self.sessions_view();
        let mut out: Vec<LobbyAction> = Vec::new();
        assert(walk.take(walk.len() as int) =~= walk);
        for entry in it: self.rooms.iter()
            invariant
                it.seq() == pairs,
                pairs.no_duplicates(),
                walk == pairs.map_values(|p: (&u128, &HashSet<u128>)| *p.0),
                walk.take(walk.len() as int) == walk,
                rooms == self.rooms_view(),
                sessions == self.sessions_view(),
                forall|j: int|
                    0 <= j < pairs.len() ==> #[trigger] rooms.contains_key(*pairs[j].0) && rooms[*pairs[j].0]
                        == pairs[j].1@,
                view_actions(out@) == listing(walk.take(it.index()), rooms, client_id, sessions),
            ensures
                view_actions(out@) == listing(walk, rooms, client_id, sessions),
        {
            let ghost i = it.index();
            let ghost before = out@;
            let (room_id, members) = entry;
            let msg = Room::json_from_values(*room_id, members.len());
            let mut single = self.send_message_to_client(&msg, client_id);
            let ghost sent = single@;
            out.append(&mut single);
            proof {
                assert(view_actions(out@) =~= view_actions(before) + view_actions(sent));
                assert(walk.take(i + 1).drop_last() =~= walk.take(i));
                assert(walk.take(i + 1).last() == *room_id);
            }
        }
        proof {
            assert(walk.no_duplicates()) by {
                assert forall|a: int, b: int| 0 <= a < b < walk.len() implies walk[a] != walk[b] by {
                    if walk[a] == walk[b] {
                        assert(self.rooms@.contains_key(*pairs[a].0));
                        assert(self.rooms@.contains_key(*pairs[b].0));
                        assert(pairs[a] == pairs[b]);
                    }
                }
            }
            assert(walk.to_set() =~= rooms.dom()) by {
                assert forall|k: u128| rooms.dom().contains(k) implies walk.to_set().contains(k) by {
                    assert(pairs.contains((&k, &self.rooms@[k])));
                    let j = choose|j: int| 0 <= j < pairs.len() && pairs[j] == (&k, &self.rooms@[k]);
                    assert(walk[j] == k);
                }
            }
        }
        out
    }


    /// Client `id` leaves room `room_id` (see `rooms_after_leave`); then the
    /// home room hears the room's new size.
    fn remove_client_from_room(&mut self, room_id: u128, id: u128) -> (out: Vec<LobbyAction>)
        ensures
            final(self).rooms_view() == rooms_after_leave(old(self).rooms_view(), room_id, id),
            final(self).session_map() == old(self).session_map(),
            room_update(
                view_actions(out@),
                final(self).rooms_view(),
                room_id,
                final(self).sessions_view(),
            ),
    {
        let ghost before = self.rooms_view();
        let taken = self.rooms.remove(&room_id);
        match taken {
            Some(mut lobby) => {
                if lobby.len() > 1 {
                    lobby.remove(&id);
                    self.rooms.insert(room_id, lobby);
                } else if room_id != HOME_ROOM_ID {
                } else {
                    lobby.remove(&id);
                    self.rooms.insert(room_id, lobby);
                }
            },
            None => {},
        }
        assert(self.rooms_view() =~= rooms_after_leave(before, room_id, id));
        self.send_updated_room_info(room_id)
    }

    /// Client `id` joins room `room_id`, which is made if missing; then the
    /// home room hears the room's new size.
    fn add_client_to_room(&mut self, room_id: u128, id: u128) -> (out: Vec<LobbyAction>)
        ensures
            final(self).rooms_view() == rooms_after_join(old(self).rooms_view(), room_id, id),
            final(self).session_map() == old(self).session_map(),
            room_update(
                view_actions(out@),
                final(self).rooms_view(),
                room_id,
                final(self).sessions_view(),
            ),
    {
        let ghost before = self.rooms_view();
        let mut members = match self.rooms.remove(&room_id) {
            Some(set) => set,
            None => HashSet::new(),
        };
        members.insert(id);
        self.rooms.insert(room_id, members);
        assert(self.rooms_view() =~= rooms_after_join(before, room_id, id));
        self.send_updated_room_info(room_id)
    }

    /// The address of client `id`, if it is connected.
    pub fn session(&self, id: u128) -> (addr: Option<&A>)
        ensures
            match addr {
                Some(a) => self.session_map().contains_key(id) && *a == self.session_map()[id],
                None => !self.session_map().contains_key(id),
            },
    {
        self.sessions.get(&id)
    }


    /// A client connects: it gets a session and joins the home room; it is
    /// sent its id and the size of every room, and the home room hears the
    /// home room's new size.
    pub fn handle_connect(&mut self, msg: Connect<A>) -> (out: Vec<LobbyAction>)
        ensures
            final(self).session_map() == old(self).session_map().insert(msg.id, msg.addr),
            final(self).rooms_view() == rooms_after_join(
                old(self).rooms_view(),
                HOME_ROOM_ID,
                msg.id,
            ),
            connect_reply(
                view_actions(out@),
                msg.id,
                final(self).rooms_view(),
                final(self).sessions_view(),
            ),
            addressed_to(view_actions(out@), final(self).sessions_view()),
            rooms_inv(old(self).rooms_view()) ==> rooms_inv(final(self).rooms_view()),
    {
        let ghost old_rooms = self.rooms_view();
        let Connect { addr, id } = msg;
        self.sessions.insert(id, addr);
        let id_text = uuid_to_text(id);
        let mut out = self.send_message_to_client(&id_text, id);
        let ghost first = out@;
        let mut update = self.add_client_to_room(HOME_ROOM_ID, id);
        let ghost update_view = view_actions(update@);
        out.append(&mut update);
        let mut list = self.send_room_info_to_client(id);
        let ghost list_view = view_actions(list@);
        let ghost mid = out@;
        out.append(&mut list);
        proof {
            assert(view_actions(out@) =~= view_actions(first) + update_view + list_view);
            assert(view_actions(first) =~= seq![ActionView::SendText { to: id, text: uuid_text(id) }]);
            assert(room_update(update_view, self.rooms_view(), HOME_ROOM_ID, self.sessions_view()));
            assert(room_listing(list_view, self.rooms_view(), id, self.sessions_view()));
            lemma_broadcast_addressed(
                update_view,
                members_of(self.rooms_view(), HOME_ROOM_ID),
                room_json(HOME_ROOM_ID, members_of(self.rooms_view(), HOME_ROOM_ID).len()),
                self.sessions_view(),
                None,
            );
            lemma_room_listing_addressed(list_view, self.rooms_view(), id, self.sessions_view());
            assert(addressed_to(view_actions(first), self.sessions_view()));
            lemma_addressed_concat(view_actions(first), update_view, self.sessions_view());
            lemma_addressed_concat(view_actions(first) + update_view, list_view, self.sessions_view());
            if rooms_inv(old_rooms) {
                lemma_join_keeps_inv(old_rooms, HOME_ROOM_ID, id);
            }
        }
        out
    }

    /// A client disconnects. If it holds a session, the session ends, the
    /// rest of its room hears of it, it leaves the room, and the home room
    /// hears the room's new size; otherwise nothing happens. The room must
    /// exist when the client holds a session.
    pub fn handle_disconnect(&mut self, msg: Disconnect) -> (out: Vec<LobbyAction>)
        requires
            old(self).session_map().contains_key(msg.id) ==> old(self).rooms_view().contains_key(
                msg.room_id,
            ),
        ensures
            if old(self).session_map().contains_key(msg.id) {
                &&& final(self).session_map() == old(self).session_map().remove(msg.id)
                &&& final(self).rooms_view() == rooms_after_leave(
                    old(self).rooms_view(),
                    msg.room_id,
                    msg.id,
                )
                &&& disconnect_reply(
                    view_actions(out@),
                    msg.id,
                    msg.username@,
                    old(self).rooms_view()[msg.room_id],
                    msg.room_id,
                    final(self).rooms_view(),
                    final(self).sessions_view(),
                )
            } else {
                &&& final(self).session_map() == old(self).session_map()
                &&& final(self).rooms_view() == old(self).rooms_view()
                &&& out@.len() == 0
            },
            addressed_to(view_actions(out@), final(self).sessions_view()),
            rooms_inv(old(self).rooms_view()) ==> rooms_inv(final(self).rooms_view()),
    {
        let ghost old_rooms = self.rooms_view();
        if self.sessions.remove(&msg.id).is_some() {
            let text = msg.username.clone().concat(" disconnected.");
            let mut out = self.send_message_to_room(&text, msg.room_id, msg.id);
            let ghost notice = view_actions(out@);
            let ghost members = self.rooms_view()[msg.room_id];
            assert(broadcast(notice, members, disconnected_text(msg.username@), self.sessions_view(), Some(msg.id)));
            let mut update = self.remove_client_from_room(msg.room_id, msg.id);
            let ghost update_view = view_actions(update@);
            out.append(&mut update);
            proof {
                assert(view_actions(out@) =~= notice + update_view);
                assert(room_update(update_view, self.rooms_view(), msg.room_id, self.sessions_view()));
                lemma_broadcast_addressed(
                    notice,
                    members,
                    disconnected_text(msg.username@),
                    self.sessions_view(),
                    Some(msg.id),
                );
                lemma_broadcast_addressed(
                    update_view,
                    members_of(self.rooms_view(), HOME_ROOM_ID),
                    room_json(msg.room_id, members_of(self.rooms_view(), msg.room_id).len()),
                    self.sessions_view(),
                    None,
                );
                lemma_addressed_concat(notice, update_view, self.sessions_view());
                if rooms_inv(old_rooms) {
                    lemma_leave_keeps_inv(old_rooms, msg.room_id, msg.id);
                }
            }
            out
        } else {
            let out: Vec<LobbyAction> = Vec::new();
            assert(view_actions(out@) =~= Seq::<ActionView>::empty());
            out
        }
    }

    /// A client moves from one room to another (see `switch_reply` for what
    /// is sent). The old room must still exist after the move, unless the
    /// client has the nil id.
    pub fn handle_switch(&mut self, msg: Switch) -> (out: Vec<LobbyAction>)
        requires
            switch_allowed(old(self).rooms_view(), msg.id, msg.old_room_id, msg.new_room_id),
        ensures
            final(self).session_map() == old(self).session_map(),
            final(self).rooms_view() == rooms_after_switch(
                old(self).rooms_view(),
                msg.id,
                msg.old_room_id,
                msg.new_room_id,
            ),
            switch_reply(
                view_actions(out@),
                msg.id,
                msg.username@,
                msg.old_room_id,
                msg.new_room_id,
                rooms_after_leave(old(self).rooms_view(), msg.old_room_id, msg.id),
                final(self).rooms_view(),
                final(self).sessions_view(),
            ),
            addressed_to(view_actions(out@), final(self).sessions_view()),
            rooms_inv(old(self).rooms_view()) ==> rooms_inv(final(self).rooms_view()),
    {
        let ghost old_rooms = self.rooms_view();
        let id = msg.id;
        let mut out = self.remove_client_from_room(msg.old_room_id, id);
        let ghost old_update = view_actions(out@);
        let ghost mid = self.rooms_view();
        let mut new_update = self.add_client_to_room(msg.new_room_id, id);
        let ghost new_update_view = view_actions(new_update@);
        out.append(&mut new_update);
        let ghost after_updates = out@;
        if self.sessions.contains_key(&id) {
            out.push(LobbyAction::ChangeRoom { to: id, room: msg.new_room_id });
        }
        let ghost after_change = out@;
        let mut left: Vec<LobbyAction> = Vec::new();
        if id != HOME_ROOM_ID {
            let text = msg.username.clone().concat(" left the room.");
            left = self.send_message_to_room(&text, msg.old_room_id, id);
        }
        let ghost left_view = view_actions(left@);
        out.append(&mut left);
        let joined_text_exec = msg.username.clone().concat(" just joined");
        let mut joined = self.send_message_to_room(&joined_text_exec, msg.new_room_id, id);
        let ghost joined_view = view_actions(joined@);
        out.append(&mut joined);
        let id_text = uuid_to_text(id);
        let mine_text = String::from_str("your id is ").concat(id_text.as_str());
        let mut mine = self.send_message_to_client(&mine_text, id);
        let ghost mine_view = view_actions(mine@);
        out.append(&mut mine);
        proof {
            let change = if self.sessions_view().contains(id) {
                seq![ActionView::ChangeRoom { to: id, room: msg.new_room_id }]
            } else {
                Seq::empty()
            };
            assert(view_actions(after_change) =~= old_update + new_update_view + change);
            assert(view_actions(out@) =~= old_update + new_update_view + change + left_view
                + joined_view + mine_view);
            if id == HOME_ROOM_ID {
                assert(left_view =~= Seq::<ActionView>::empty());
            }
            assert(room_update(old_update, mid, msg.old_room_id, self.sessions_view()));
            assert(room_update(new_update_view, self.rooms_view(), msg.new_room_id, self.sessions_view()));
            // Mention the leave notice's broadcast so that the existential in
            // `switch_reply` can be matched when no notice is sent.
            let left_ok = broadcast(left_view, members_of(self.rooms_view(), msg.old_room_id), left_text(msg.username@), self.sessions_view(), Some(id));
            assert(left_ok || !left_ok);
            if id != HOME_ROOM_ID {
                assert(broadcast(left_view, members_of(self.rooms_view(), msg.old_room_id), left_text(msg.username@), self.sessions_view(), Some(id)));
            }
            assert(broadcast(joined_view, members_of(self.rooms_view(), msg.new_room_id), joined_text(msg.username@), self.sessions_view(), Some(id)));
            assert(mine_view == direct(id, your_id_text(id), self.sessions_view()));
            let sessions = self.sessions_view();
            lemma_broadcast_addressed(
                old_update,
                members_of(mid, HOME_ROOM_ID),
                room_json(msg.old_room_id, members_of(mid, msg.old_room_id).len()),
                sessions,
                None,
            );
            lemma_broadcast_addressed(
                new_update_view,
                members_of(self.rooms_view(), HOME_ROOM_ID),
                room_json(msg.new_room_id, members_of(self.rooms_view(), msg.new_room_id).len()),
                sessions,
                None,
            );
            if id != HOME_ROOM_ID {
                lemma_broadcast_addressed(
                    left_view,
                    members_of(self.rooms_view(), msg.old_room_id),
                    left_text(msg.username@),
                    sessions,
                    Some(id),
                );
            }
            lemma_broadcast_addressed(
                joined_view,
                members_of(self.rooms_view(), msg.new_room_id),
                joined_text(msg.username@),
                sessions,
                Some(id),
            );
            assert(addressed_to(change, sessions));
            assert(addressed_to(left_view, sessions));
            assert(addressed_to(mine_view, sessions));
            lemma_addressed_concat(old_update, new_update_view, sessions);
            lemma_addressed_concat(old_update + new_update_view, change, sessions);
            lemma_addressed_concat(old_update + new_update_view + change, left_view, sessions);
            lemma_addressed_concat(old_update + new_update_view + change + left_view, joined_view, sessions);
            lemma_addressed_concat(
                old_update + new_update_view + change + left_view + joined_view,
                mine_view,
                sessions,
            );
            if rooms_inv(old_rooms) {
                lemma_leave_keeps_inv(old_rooms, msg.old_room_id, id);
                lemma_join_keeps_inv(mid, msg.new_room_id, id);
            }
        }
        out
    }

    /// A client writes a message (see `client_message_reply`). A whisper's
    /// second field must parse as a UUID; another message's room must exist.
    pub fn handle_client_message(&self, msg: ClientActorMessage) -> (out: Vec<LobbyAction>)
        requires
            client_message_allowed(self.rooms_view(), msg.msg@, msg.room_id),
        ensures
            client_message_reply(
                view_actions(out@),
                msg.id,
                msg.username@,
                msg.msg@,
                msg.room_id,
                self.rooms_view(),
                self.sessions_view(),
            ),
            addressed_to(view_actions(out@), self.sessions_view()),
    {
        if whisper_prefix(msg.msg.as_str()) {
            match second_field_of(msg.msg.as_str()) {
                Some(target) => {
                    let to = parse_uuid(target.as_str());
                    let out = self.send_message_to_client(&msg.msg, to.unwrap());
                    assert(addressed_to(view_actions(out@), self.sessions_view()));
                    out
                },
                None => {
                    let out: Vec<LobbyAction> = Vec::new();
                    assert(view_actions(out@) =~= Seq::<ActionView>::empty());
                    out
                },
            }
        } else {
            let text = msg.username.clone().concat(": ").concat(msg.msg.as_str());
            let out = self.send_message_to_room(&text, msg.room_id, msg.id);
            proof {
                lemma_broadcast_addressed(
                    view_actions(out@),
                    self.rooms_view()[msg.room_id],
                    text@,
                    self.sessions_view(),
                    Some(msg.id),
                );
            }
            out
        }
    }


    /// Whether `handle_disconnect` accepts `msg`: a client without a
    /// session may name any room; one with a session must name a room that
    /// exists.
    pub fn can_handle_disconnect(&self, msg: &Disconnect) -> (ok: bool)
        ensures
            ok == (self.session_map().contains_key(msg.id) ==> self.rooms_view().contains_key(
                msg.room_id,
            )),
    {
        !self.sessions.contains_key(&msg.id) || self.rooms.contains_key(&msg.room_id)
    }

    /// Whether `handle_switch` accepts `msg` (see `switch_allowed`).
    pub fn can_handle_switch(&self, msg: &Switch) -> (ok: bool)
        ensures
            ok == switch_allowed(self.rooms_view(), msg.id, msg.old_room_id, msg.new_room_id),
    {
        let old_room_stays = match self.rooms.get(&msg.old_room_id) {
            Some(members) => members.len() > 1 || msg.old_room_id == HOME_ROOM_ID,
            None => false,
        };
        msg.id == HOME_ROOM_ID || msg.new_room_id == msg.old_room_id || old_room_stays
    }

    /// `handle_client_message` where it accepts the message; `None`, with
    /// nothing sent, where a whisper names no valid UUID or another message
    /// names a room that does not exist.
    pub fn try_handle_client_message(&self, msg: ClientActorMessage) -> (out: Option<
        Vec<LobbyAction>,
    >)
        ensures
            out is Some <==> client_message_allowed(self.rooms_view(), msg.msg@, msg.room_id),
            out matches Some(acts) ==> client_message_reply(
                view_actions(acts@),
                msg.id,
                msg.username@,
                msg.msg@,
                msg.room_id,
                self.rooms_view(),
                self.sessions_view(),
            ) && addressed_to(view_actions(acts@), self.sessions_view()),
    {
        let allowed = if whisper_prefix(msg.msg.as_str()) {
            match second_field_of(msg.msg.as_str()) {
                Some(target) => parse_uuid(target.as_str()).is_some(),
                None => true,
            }
        } else {
            self.rooms.contains_key(&msg.room_id)
        };
        if allowed {
            Some(self.handle_client_message(msg))
        } else {
            None
        }
    }


    /// The number of members of room `room_id`, if it exists.
    pub fn room_size(&self, room_id: u128) -> (size: Option<usize>)
        ensures
            match size {
                Some(n) => self.rooms_view().contains_key(room_id) && n == self.rooms_view()[room_id].len(),
                None => !self.rooms_view().contains_key(room_id),
            },
    {
        match self.rooms.get(&room_id) {
            Some(members) => Some(members.len()),
            None => None,
        }
    }

}

} // verus!

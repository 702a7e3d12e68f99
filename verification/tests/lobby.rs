use chatroom_project_v3::lobby::{Lobby, LobbyAction};
use chatroom_project_v3::messages::{ClientActorMessage, Connect, Disconnect, Switch};
use chatroom_project_v3::HOME_ROOM_ID;

fn text(to: u128, t: &str) -> LobbyAction {
    LobbyAction::SendText { to, text: t.to_string() }
}

fn room_info(room: &str, members: usize) -> String {
    format!("{{\"room_id\":\"{}\",\"members\":{}}}", room, members)
}

const HOME_TEXT: &str = "00000000-0000-0000-0000-000000000000";
const ONE_TEXT: &str = "00000000-0000-0000-0000-000000000001";
const TWO_TEXT: &str = "00000000-0000-0000-0000-000000000002";
const FIVE_TEXT: &str = "00000000-0000-0000-0000-000000000005";

fn sorted(mut acts: Vec<LobbyAction>) -> Vec<LobbyAction> {
    acts.sort_by_key(|a| format!("{:?}", a));
    acts
}

fn connect(lobby: &mut Lobby<u32>, id: u128) -> Vec<LobbyAction> {
    lobby.handle_connect(Connect { addr: id as u32 * 10, id })
}

#[test]
fn default_lobby_has_only_an_empty_home_room() {
    let lobby: Lobby<u32> = Lobby::default();
    assert_eq!(lobby.room_size(HOME_ROOM_ID), Some(0));
    assert_eq!(lobby.room_size(5), None);
    assert_eq!(lobby.session(1), None);
}

#[test]
fn first_connect_sends_id_home_size_and_listing() {
    let mut lobby: Lobby<u32> = Lobby::default();
    let acts = connect(&mut lobby, 1);
    assert_eq!(
        acts,
        vec![
            text(1, ONE_TEXT),
            text(1, &room_info(HOME_TEXT, 1)),
            text(1, &room_info(HOME_TEXT, 1)),
        ]
    );
    assert_eq!(lobby.session(1), Some(&10));
    assert_eq!(lobby.room_size(HOME_ROOM_ID), Some(1));
}

#[test]
fn second_connect_updates_every_home_member() {
    let mut lobby: Lobby<u32> = Lobby::default();
    connect(&mut lobby, 1);
    let acts = connect(&mut lobby, 2);
    assert_eq!(acts.len(), 4);
    assert_eq!(acts[0], text(2, TWO_TEXT));
    assert_eq!(
        sorted(acts[1..3].to_vec()),
        sorted(vec![text(1, &room_info(HOME_TEXT, 2)), text(2, &room_info(HOME_TEXT, 2))])
    );
    assert_eq!(acts[3], text(2, &room_info(HOME_TEXT, 2)));
}

#[test]
fn switch_into_new_room_and_messages() {
    let mut lobby: Lobby<u32> = Lobby::default();
    connect(&mut lobby, 1);
    connect(&mut lobby, 2);
    let switch = Switch::join_request(2, HOME_ROOM_ID, 5);
    assert!(lobby.can_handle_switch(&switch));
    let acts = lobby.handle_switch(switch);
    assert_eq!(
        acts,
        vec![
            text(1, &room_info(HOME_TEXT, 1)),
            text(1, &room_info(FIVE_TEXT, 1)),
            LobbyAction::ChangeRoom { to: 2, room: 5 },
            text(1, "username left the room."),
            text(2, &format!("your id is {}", TWO_TEXT)),
        ]
    );
    assert_eq!(lobby.room_size(5), Some(1));
    assert_eq!(lobby.room_size(HOME_ROOM_ID), Some(1));

    // A message in a room of one reaches no one else.
    let alone = ClientActorMessage { id: 2, username: "bob".to_string(), msg: "hello".to_string(), room_id: 5 };
    assert_eq!(lobby.try_handle_client_message(alone), Some(vec![]));

    // A whisper reaches the client it names, unchanged.
    let whisper_text = format!("\\w {} psst", TWO_TEXT);
    let whisper = ClientActorMessage { id: 1, username: "ann".to_string(), msg: whisper_text.clone(), room_id: 0 };
    assert_eq!(lobby.handle_client_message(whisper), vec![text(2, &whisper_text)]);
}

#[test]
fn room_message_reaches_other_members_with_name() {
    let mut lobby: Lobby<u32> = Lobby::default();
    connect(&mut lobby, 1);
    connect(&mut lobby, 2);
    let msg = ClientActorMessage { id: 1, username: "ann".to_string(), msg: "hi all".to_string(), room_id: 0 };
    assert_eq!(lobby.handle_client_message(msg), vec![text(2, "ann: hi all")]);
}

#[test]
fn whisper_edge_cases() {
    let mut lobby: Lobby<u32> = Lobby::default();
    connect(&mut lobby, 1);
    // No second field: nothing is sent.
    let bare = ClientActorMessage { id: 1, username: "ann".to_string(), msg: "\\w".to_string(), room_id: 0 };
    assert_eq!(lobby.try_handle_client_message(bare), Some(vec![]));
    // A second field that is not a UUID is refused.
    let bad = ClientActorMessage { id: 1, username: "ann".to_string(), msg: "\\w nobody hi".to_string(), room_id: 0 };
    assert_eq!(lobby.try_handle_client_message(bad), None);
    // A whisper to a client without a session reaches no one.
    let absent = ClientActorMessage {
        id: 1,
        username: "ann".to_string(),
        msg: format!("\\w {}", FIVE_TEXT),
        room_id: 0,
    };
    assert_eq!(lobby.try_handle_client_message(absent), Some(vec![]));
    // A message to a room that does not exist is refused.
    let lost = ClientActorMessage { id: 1, username: "ann".to_string(), msg: "x".to_string(), room_id: 9 };
    assert_eq!(lobby.try_handle_client_message(lost), None);
}

#[test]
fn disconnect_from_room_of_one_closes_it() {
    let mut lobby: Lobby<u32> = Lobby::default();
    connect(&mut lobby, 1);
    connect(&mut lobby, 2);
    lobby.handle_switch(Switch::join_request(2, HOME_ROOM_ID, 5));
    let bye = Disconnect { id: 2, username: "bob".to_string(), room_id: 5 };
    assert!(lobby.can_handle_disconnect(&bye));
    let acts = lobby.handle_disconnect(bye);
    assert_eq!(acts, vec![text(1, &room_info(FIVE_TEXT, 0))]);
    assert_eq!(lobby.room_size(5), None);
    assert_eq!(lobby.session(2), None);
}

#[test]
fn disconnect_notifies_the_rest_of_the_room() {
    let mut lobby: Lobby<u32> = Lobby::default();
    connect(&mut lobby, 1);
    connect(&mut lobby, 2);
    let acts = lobby.handle_disconnect(Disconnect { id: 2, username: "bob".to_string(), room_id: 0 });
    assert_eq!(
        acts,
        vec![text(1, "bob disconnected."), text(1, &room_info(HOME_TEXT, 1))]
    );
}

#[test]
fn disconnect_without_session_changes_nothing() {
    let mut lobby: Lobby<u32> = Lobby::default();
    connect(&mut lobby, 1);
    let ghost = Disconnect { id: 7, username: "x".to_string(), room_id: 42 };
    assert!(lobby.can_handle_disconnect(&ghost));
    assert_eq!(lobby.handle_disconnect(ghost), vec![]);
    assert_eq!(lobby.room_size(HOME_ROOM_ID), Some(1));
    assert_eq!(lobby.room_size(42), None);
}

#[test]
fn disconnect_naming_missing_room_is_refused() {
    let mut lobby: Lobby<u32> = Lobby::default();
    connect(&mut lobby, 1);
    let bad = Disconnect { id: 1, username: "ann".to_string(), room_id: 42 };
    assert!(!lobby.can_handle_disconnect(&bad));
}

#[test]
fn switch_out_of_missing_room_is_refused_unless_nil_or_same() {
    let mut lobby: Lobby<u32> = Lobby::default();
    connect(&mut lobby, 1);
    assert!(!lobby.can_handle_switch(&Switch::join_request(1, 7, 8)));
    assert!(lobby.can_handle_switch(&Switch::join_request(1, 7, 7)));
    assert!(lobby.can_handle_switch(&Switch::join_request(0, 7, 8)));
}

#[test]
fn connect_then_disconnect_restores_lobby() {
    let mut lobby: Lobby<u32> = Lobby::default();
    connect(&mut lobby, 1);
    connect(&mut lobby, 3);
    lobby.handle_disconnect(Disconnect { id: 3, username: "c".to_string(), room_id: 0 });
    assert_eq!(lobby.session(3), None);
    assert_eq!(lobby.session(1), Some(&10));
    assert_eq!(lobby.room_size(HOME_ROOM_ID), Some(1));
}

#[test]
fn switch_back_out_of_room_of_one_is_refused() {
    let mut lobby: Lobby<u32> = Lobby::default();
    connect(&mut lobby, 1);
    connect(&mut lobby, 2);
    lobby.handle_switch(Switch::join_request(2, HOME_ROOM_ID, 5));
    // Leaving closes room 5, and the leave notice would go to a room that no
    // longer exists.
    assert!(!lobby.can_handle_switch(&Switch::join_request(2, 5, HOME_ROOM_ID)));
    assert!(lobby.can_handle_switch(&Switch::join_request(2, 5, 5)));
}

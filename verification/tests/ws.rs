use chatroom_project_v3::messages::{ChangeRoom, ClientActorMessage, Disconnect, WsMessage};
use chatroom_project_v3::ws::{CloseReason, WsAction, WsConn, WsEvent, CLIENT_TIMEOUT_NANOS};

fn conn() -> WsConn {
    WsConn::new(0, "ann".to_string(), 1_000)
}

fn disconnect_of(c: &WsConn) -> WsAction {
    WsAction::Disconnect(Disconnect { id: c.id(), username: "ann".to_string(), room_id: c.room() })
}

#[test]
fn new_connection_has_random_v4_id() {
    let a = conn();
    let b = conn();
    assert_eq!((a.id() >> 76) & 0xf, 4);
    assert_eq!((a.id() >> 62) & 0x3, 2);
    assert_ne!(a.id(), 0);
    assert_ne!(a.id(), b.id());
    assert_eq!(a.room(), 0);
}

#[test]
fn start_registers_and_failure_stops() {
    let c = conn();
    assert_eq!(c.started(), vec![WsAction::StartHeartbeat, WsAction::Connect { id: c.id() }]);
    assert_eq!(c.connect_result(true), vec![]);
    assert_eq!(c.connect_result(false), vec![WsAction::Stop]);
}

#[test]
fn heartbeat_pings_then_drops_silent_client() {
    let c = conn();
    assert_eq!(c.hb(1_000 + CLIENT_TIMEOUT_NANOS), vec![WsAction::Ping(b"PING".to_vec())]);
    assert_eq!(c.hb(500), vec![WsAction::Ping(b"PING".to_vec())]);
    assert_eq!(c.hb(1_001 + CLIENT_TIMEOUT_NANOS), vec![disconnect_of(&c), WsAction::Stop]);
}

#[test]
fn ping_keeps_client_alive() {
    let mut c = conn();
    let t = 50_000_000_000u64;
    assert_eq!(c.handle_frame(WsEvent::Ping(vec![1, 2]), t), vec![WsAction::Pong(vec![1, 2])]);
    assert_eq!(c.hb(t + CLIENT_TIMEOUT_NANOS), vec![WsAction::Ping(b"PING".to_vec())]);
    assert_eq!(c.handle_frame(WsEvent::Pong(vec![]), t + 5), vec![]);
    assert_eq!(c.hb(t + 5 + CLIENT_TIMEOUT_NANOS), vec![WsAction::Ping(b"PING".to_vec())]);
}

#[test]
fn frames_are_answered() {
    let mut c = conn();
    assert_eq!(c.handle_frame(WsEvent::Binary(vec![9]), 0), vec![WsAction::Binary(vec![9])]);
    let reason = Some(CloseReason { code: 1000, description: Some("bye".to_string()) });
    assert_eq!(
        c.handle_frame(WsEvent::Close(reason.clone()), 0),
        vec![WsAction::Close(reason), WsAction::Stop]
    );
    assert_eq!(c.handle_frame(WsEvent::Continuation, 0), vec![WsAction::Stop]);
    assert_eq!(c.handle_frame(WsEvent::Nop, 0), vec![]);
    assert_eq!(
        c.handle_frame(WsEvent::ProtocolError, 0),
        vec![WsAction::Close(None), WsAction::Stop]
    );
}

#[test]
fn text_goes_to_lobby_with_current_room() {
    let mut c = conn();
    c.handle_change_room(ChangeRoom(5));
    let acts = c.handle_frame(WsEvent::Text("hi".to_string()), 0);
    assert_eq!(
        acts,
        vec![WsAction::ToLobby(ClientActorMessage {
            id: c.id(),
            username: "ann".to_string(),
            msg: "hi".to_string(),
            room_id: 5,
        })]
    );
    assert_eq!(c.stopping(), vec![disconnect_of(&c)]);
}

#[test]
fn lobby_text_is_written() {
    let c = conn();
    assert_eq!(c.handle_ws_message(WsMessage("x".to_string())), vec![WsAction::Text("x".to_string())]);
}

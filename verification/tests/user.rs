use chatroom_project_v3::user::{
    login_check, login_complete, login_decide, signup_after_hash, signup_begin, signup_check_passwords,
    signup_complete, Chat, DbFailure, LoginStep,
    Message, Room, Rooms, SignupStep, User,
};
use chatroom_project_v3::HOME_ROOM_ID;

#[test]
fn room_json_matches_serde_form() {
    assert_eq!(
        Room::json_from_values(0x67e5504410b1426f9247bb680e5fe0c8, 3),
        "{\"room_id\":\"67e55044-10b1-426f-9247-bb680e5fe0c8\",\"members\":3}"
    );
    assert_eq!(
        Room::json_from_values(0, 0),
        "{\"room_id\":\"00000000-0000-0000-0000-000000000000\",\"members\":0}"
    );
    assert_eq!(
        Room::json_from_values(u128::MAX, 1234567),
        "{\"room_id\":\"ffffffff-ffff-ffff-ffff-ffffffffffff\",\"members\":1234567}"
    );
}

#[test]
fn chat_records_received_and_sent() {
    let mut chat = Chat::new();
    chat.push_received(String::new());
    assert!(chat.messages.is_empty());
    chat.push_received("hi".to_string());
    chat.push_sent("yo".to_string());
    assert_eq!(
        chat.messages,
        vec![
            Message { user: false, text: "hi".to_string() },
            Message { user: true, text: "yo".to_string() },
        ]
    );
}

#[test]
fn rooms_follow_announcements() {
    let mut rooms = Rooms::new();
    assert_eq!(rooms.home_members(), 0);
    rooms.apply_update(Room { room_id: HOME_ROOM_ID, members: 2 });
    rooms.apply_update(Room { room_id: 5, members: 1 });
    rooms.apply_update(Room { room_id: 6, members: 3 });
    assert_eq!(rooms.home_members(), 2);
    let mut listed = rooms.listed_rooms();
    listed.sort_by_key(|r| r.room_id);
    assert_eq!(listed, vec![Room { room_id: 5, members: 1 }, Room { room_id: 6, members: 3 }]);
    rooms.apply_update(Room { room_id: 5, members: 0 });
    assert!(!rooms.rooms.contains_key(&5));
    assert_eq!(rooms.listed_rooms(), vec![Room { room_id: 6, members: 3 }]);
}

#[test]
fn signup_rejects_different_passwords() {
    assert_eq!(
        signup_check_passwords(&"a".to_string(), &"b".to_string()),
        Err("Passwords do not match.".to_string())
    );
    assert_eq!(signup_check_passwords(&"a".to_string(), &"a".to_string()), Ok(()));
}

fn signed_up(password: &str) -> User {
    match signup_begin("ann".to_string(), &password.to_string()) {
        SignupStep::Insert(user) => user,
        other => panic!("unexpected {:?}", other),
    }
}

#[test]
fn signup_then_login_succeeds() {
    let user = signed_up("secret");
    assert_eq!(user.username, "ann");
    assert_eq!(user.created_at, user.last_login_at);
    assert!(user.hash_password.starts_with("$2b$05$"));
    assert_eq!(user.hash_password.len(), 60);
    assert_eq!((user.id >> 76) & 0xf, 4);
    assert_eq!((user.id >> 62) & 0x3, 2);
    assert_ne!(user.hash_password, "secret");
    match login_check("ann".to_string(), &"secret".to_string(), Ok(user.hash_password.clone())) {
        LoginStep::UpdateLastLogin { username, .. } => assert_eq!(username, "ann"),
        other => panic!("unexpected {:?}", other),
    }
}

#[test]
fn login_with_wrong_password_is_rejected() {
    let user = signed_up("secret");
    assert_eq!(
        login_check("ann".to_string(), &"guess".to_string(), Ok(user.hash_password)),
        LoginStep::Rejected("Username or password is incorrect.".to_string())
    );
}

#[test]
fn login_with_malformed_hash_or_store_failure_is_internal_error() {
    let internal = LoginStep::Rejected("Internal Server Error.".to_string());
    assert_eq!(login_check("ann".to_string(), &"x".to_string(), Ok("not a hash".to_string())), internal);
    assert_eq!(login_check("ann".to_string(), &"x".to_string(), Err(DbFailure::Other)), internal);
}

#[test]
fn login_decide_cases() {
    assert_eq!(
        login_decide("ann".to_string(), Some(true), 7),
        LoginStep::UpdateLastLogin { username: "ann".to_string(), now: 7 }
    );
    assert_eq!(
        login_decide("ann".to_string(), Some(false), 7),
        LoginStep::Rejected("Username or password is incorrect.".to_string())
    );
    assert_eq!(
        login_decide("ann".to_string(), None, 7),
        LoginStep::Rejected("Internal Server Error.".to_string())
    );
}

#[test]
fn store_answers_map_to_replies() {
    assert_eq!(signup_complete(Ok(())), Ok(()));
    assert_eq!(signup_complete(Err(DbFailure::UniqueViolation)), Err("Username already exists.".to_string()));
    assert_eq!(signup_complete(Err(DbFailure::Other)), Err("Internal Server Error.".to_string()));
    assert_eq!(login_complete(Ok(())), Ok(()));
    assert_eq!(login_complete(Err(DbFailure::UniqueViolation)), Err("Internal Server Error.".to_string()));
}

#[test]
fn new_user_gets_fresh_id() {
    let a = User::new("a".to_string(), "h".to_string());
    let b = User::new("a".to_string(), "h".to_string());
    assert_ne!(a.id, b.id);
    assert_eq!((a.id >> 76) & 0xf, 4);
}

#[test]
fn signup_after_hash_cases() {
    assert_eq!(signup_after_hash("ann".to_string(), None), SignupStep::HashFailed);
    match signup_after_hash("ann".to_string(), Some("h".to_string())) {
        SignupStep::Insert(user) => {
            assert_eq!(user.username, "ann");
            assert_eq!(user.hash_password, "h");
            assert_eq!(user.created_at, user.last_login_at);
            assert_ne!(user.id, 0);
        }
        other => panic!("unexpected {:?}", other),
    }
}

#[test]
fn room_json_reads_back_as_the_same_room() {
    let id = 0x67e5504410b1426f9247bb680e5fe0c8u128;
    let json = Room::json_from_values(id, 42);
    let value: serde_json::Value = serde_json::from_str(&json).unwrap();
    let object = value.as_object().unwrap();
    assert_eq!(object.len(), 2);
    let room_id = uuid::Uuid::parse_str(object["room_id"].as_str().unwrap()).unwrap();
    assert_eq!(room_id.as_u128(), id);
    assert_eq!(object["members"].as_u64(), Some(42));
    assert_eq!(
        Room::json_from_values(0, 2),
        "{\"room_id\":\"00000000-0000-0000-0000-000000000000\",\"members\":2}"
    );
}

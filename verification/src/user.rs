//! Chat and room data shared by server and client, the room-info text the
//! server sends, and the login and signup decisions.
use vstd::prelude::*;
use std::collections::HashMap;
use vstd::std_specs::iter::IteratorSpec;
use vstd::std_specs::hash::spec_hash_map_iter;

use crate::HOME_ROOM_ID;
use crate::lobby::is_walk;
use crate::ids::{decimal, decimal_digit, lemma_random_uuid_not_nil, random_uuid, usize_to_text, uuid_text, uuid_to_text};

verus! {

broadcast use vstd::std_specs::hash::group_hash_axioms;

/// A room and its number of members, as the server announces it.
#[derive(Debug, Clone, PartialEq, Eq)]
pub struct Room {
    pub room_id: u128,
    pub members: usize,
}

/// The JSON text of a room announcement:
/// `{"room_id":"<hyphenated uuid>","members":<decimal>}`.
pub open spec fn room_json(room_id: u128, members: nat) -> Seq<char> {
    "{\"room_id\":\""@ + uuid_text(room_id) + "\",\"members\":"@ + decimal(members) + "}"@
}

impl Room {
    /// The JSON text of the room `room_id` with `members` members.
    pub fn json_from_values(room_id: u128, members: usize) -> (json: String)
        ensures
            json@ == room_json(room_id, members as nat),
    {
        let mut json = String::from_str("{\"room_id\":\"");
        let id_text = uuid_to_text(room_id);
        json.append(id_text.as_str());
        json.append("\",\"members\":");
        let count_text = usize_to_text(members);
        json.append(count_text.as_str());
        json.append("}");
        json
    }
}


/// One line of a chat: written by this user (`user`) or received.
#[derive(Debug, Clone, PartialEq, Eq)]
pub struct Message {
    pub user: bool,
    pub text: String,
}

/// The lines of a chat, oldest first.
#[derive(Debug, Clone)]
pub struct Chat {
    pub messages: Vec<Message>,
}

impl Chat {
    /// An empty chat.
    pub fn new() -> (chat: Chat)
        ensures
            chat.messages@ == Seq::<Message>::empty(),
    {
        Chat { messages: Vec::new() }
    }

    /// A text received from the server; an empty text adds nothing.
    pub fn push_received(&mut self, text: String)
        ensures
            final(self).messages@ == if text@.len() == 0 {
                old(self).messages@
            } else {
                old(self).messages@.push(Message { user: false, text })
            },
    {
        if !text.as_str().is_empty() {
            self.messages.push(Message { user: false, text });
        }
    }

    /// A text this user sent.
    pub fn push_sent(&mut self, text: String)
        ensures
            final(self).messages@ == old(self).messages@.push(Message { user: true, text }),
    {
        self.messages.push(Message { user: true, text });
    }
}

/// The rooms a client knows of, with their numbers of members.
#[derive(Debug, Clone)]
pub struct Rooms {
    pub rooms: HashMap<u128, usize>,
}

/// The rooms of `walk` other than the home room, in that order, with their
/// numbers of members in `rooms`.
pub open spec fn room_entries(walk: Seq<u128>, rooms: Map<u128, usize>) -> Seq<Room>
    decreases walk.len(),
{
    if walk.len() == 0 {
        Seq::empty()
    } else {
        let rest = room_entries(walk.drop_last(), rooms);
        if walk.last() == HOME_ROOM_ID {
            rest
        } else {
            rest.push(Room { room_id: walk.last(), members: rooms[walk.last()] })
        }
    }
}

/// No room is listed with zero members.
pub open spec fn no_empty_rooms(rooms: Map<u128, usize>) -> bool {
    forall|r: u128| #[trigger] rooms.contains_key(r) ==> rooms[r] > 0
}

impl Rooms {
    /// No rooms.
    pub fn new() -> (rooms: Rooms)
        ensures
            rooms.rooms@ == Map::<u128, usize>::empty(),
    {
        Rooms { rooms: HashMap::new() }
    }

    /// A room announcement: a room with members is listed with its count;
    /// a room without members is dropped.
    pub fn apply_update(&mut self, room: Room)
        ensures
            final(self).rooms@ == if room.members > 0 {
                old(self).rooms@.insert(room.room_id, room.members)
            } else {
                old(self).rooms@.remove(room.room_id)
            },
            no_empty_rooms(old(self).rooms@) ==> no_empty_rooms(final(self).rooms@),
    {
        if room.members > 0 {
            self.rooms.insert(room.room_id, room.members);
        } else {
            self.rooms.remove(&room.room_id);
        }
    }

    /// The number of members of the home room, 0 where it is not listed.
    pub fn home_members(&self) -> (n: usize)
        ensures
            n == if self.rooms@.contains_key(HOME_ROOM_ID) {
                self.rooms@[HOME_ROOM_ID]
            } else {
                0
            },
    {
        match self.rooms.get(&HOME_ROOM_ID) {
            Some(n) => *n,
            None => 0,
        }
    }

    /// The rooms other than the home room, each once, with their numbers of
    /// members, in some order.
    pub fn listed_rooms(&self) -> (list: Vec<Room>)
        ensures
            exists|walk: Seq<u128>|
                is_walk(walk, self.rooms@.dom()) && list@ == #[trigger] room_entries(walk, self.rooms@),
    {
        let ghost pairs = spec_hash_map_iter(&self.rooms).remaining();
        let ghost walk = pairs.map_values(|p: (&u128, &usize)| *p.0);
        let mut list: Vec<Room> = Vec::new();
        assert(walk.take(walk.len() as int) =~= walk);
        for entry in it: self.rooms.iter()
            invariant
                it.seq() == pairs,
                pairs.no_duplicates(),
                walk == pairs.map_values(|p: (&u128, &usize)| *p.0),
                walk.take(walk.len() as int) == walk,
                forall|j: int|
                    0 <= j < pairs.len() ==> #[trigger] self.rooms@.contains_key(*pairs[j].0)
                        && self.rooms@[*pairs[j].0] == *pairs[j].1,
                list@ == room_entries(walk.take(it.index()), self.rooms@),
            ensures
                list@ == room_entries(walk, self.rooms@),
        {
            let ghost i = it.index();
            let (room_id, members) = entry;
            if *room_id != HOME_ROOM_ID {
                list.push(Room { room_id: *room_id, members: *members });
            }
            proof {
                assert(walk.take(i + 1).drop_last() =~= walk.take(i));
                assert(walk.take(i + 1).last() == *room_id);
            }
        }
        proof {
            assert(walk.no_duplicates()) by {
                assert forall|a: int, b: int| 0 <= a < b < walk.len() implies walk[a] != walk[b] by {
                    if walk[a] == walk[b] {
                        assert(self.rooms@.contains_key(*pairs[a].0));
                        assert(self.rooms@.contains_key(*pairs[b].0));
                        assert(pairs[a] == pairs[b]);
                    }
                }
            }
            assert(walk.to_set() =~= self.rooms@.dom()) by {
                assert forall|k: u128| self.rooms@.dom().contains(k) implies walk.to_set().contains(k) by {
                    assert(pairs.contains((&k, &self.rooms@[k])));
                    let j = choose|j: int| 0 <= j < pairs.len() && pairs[j] == (&k, &self.rooms@[k]);
                    assert(walk[j] == k);
                }
            }
        }
        list
    }
}


/// The bcrypt cost of stored password hashes.
pub const HASH_COST: u32 = 5;

/// What `bcrypt::verify` gives for a password and a stored hash: whether
/// they match, or `None` where it reports an error (a malformed hash).
pub uninterp spec fn bcrypt_verify_result(password: Seq<char>, hash: Seq<char>) -> Option<bool>;

/// The start of a bcrypt hash text of cost `cost` (version `2b`):
/// `$2b$`, the cost in two decimal digits, and `$`.
pub open spec fn bcrypt_prefix(cost: u32) -> Seq<char> {
    "$2b$"@ + seq![decimal_digit((cost / 10) as nat), decimal_digit((cost % 10) as nat)] + "$"@
}

/// Calls `bcrypt::hash(password, cost)`; an error becomes `None`. The salt
/// is random, so the hash is not named. The crate's source shows what the
/// contract claims of a hash it returns: the cost was one it accepts (4 to
/// 31); the text is `$2b$`, the cost in two digits, `$`, then 22 characters
/// of salt and 31 of hash (60 in all); and `bcrypt::verify` accepts it for
/// the same password (it re-derives the hash from the salt and cost the
/// text carries).
#[verifier::external_body]
fn bcrypt_hash(password: &str, cost: u32) -> (hash: Option<String>)
    ensures
        hash matches Some(h) ==> {
            &&& 4 <= cost <= 31
            &&& h@.len() == 60
            &&& h@.subrange(0, 7) == bcrypt_prefix(cost)
            &&& bcrypt_verify_result(password@, h@) == Some(true)
        },
{
    bcrypt::hash(password, cost).ok()
}

/// Calls `bcrypt::verify(password, hash)`; an error becomes `None`. The
/// result depends on the two texts alone and is only named.
#[verifier::external_body]
fn bcrypt_verify(password: &str, hash: &str) -> (matched: Option<bool>)
    ensures
        matched == bcrypt_verify_result(password@, hash@),
{
    bcrypt::verify(password, hash).ok()
}

/// Calls `chrono::Utc::now().timestamp_micros()`: the current time in
/// microseconds since the Unix epoch. Nothing is claimed of it.
#[verifier::external_body]
fn now_micros() -> i64 {
    chrono::Utc::now().timestamp_micros()
}

/// A registered user as it is stored: its id, name, password hash, and
/// the times (microseconds since the Unix epoch) it was made and last
/// logged in.
#[derive(Debug, Clone, PartialEq, Eq)]
pub struct User {
    pub id: u128,
    pub username: String,
    pub hash_password: String,
    pub created_at: i64,
    pub last_login_at: i64,
}

impl User {
    /// A new user with a fresh random id, made and logged in now.
    pub fn new(username: String, hash_password: String) -> (user: User)
        ensures
            user.username == username,
            user.hash_password == hash_password,
            user.created_at == user.last_login_at,
            (user.id >> 76u128) & 0xfu128 == 4,
            (user.id >> 62u128) & 0x3u128 == 2,
            user.id != 0,
    {
        let now = now_micros();
        let id = random_uuid();
        proof {
            lemma_random_uuid_not_nil(id);
        }
        User { id, username, hash_password, created_at: now, last_login_at: now }
    }
}

/// How a store operation failed.
#[derive(Debug, Clone, Copy, PartialEq, Eq)]
pub enum DbFailure {
    /// The username is taken.
    UniqueViolation,
    /// Any other failure.
    Other,
}

/// The message for a signup whose passwords differ.
pub open spec fn passwords_mismatch_message() -> Seq<char> {
    "Passwords do not match."@
}

/// The message for a signup with a taken username.
pub open spec fn username_taken_message() -> Seq<char> {
    "Username already exists."@
}

/// The message for any failure of the store or of the hash.
pub open spec fn internal_error_message() -> Seq<char> {
    "Internal Server Error."@
}

/// The message for a login with a wrong password.
pub open spec fn wrong_password_message() -> Seq<char> {
    "Username or password is incorrect."@
}

/// The check a signup makes first: its two passwords must be equal.
pub fn signup_check_passwords(password: &String, confirm_password: &String) -> (checked: Result<
    (),
    String,
>)
    ensures
        password@ == confirm_password@ ==> checked is Ok,
        password@ != confirm_password@ ==> (checked matches Err(m) && m@
            == passwords_mismatch_message()),
{
    if password.eq(confirm_password) {
        Ok(())
    } else {
        Err(String::from_str("Passwords do not match."))
    }
}

/// The step of a signup after its passwords matched.
#[derive(Debug, Clone, PartialEq, Eq)]
pub enum SignupStep {
    /// Hashing the password failed; the signup cannot go on.
    HashFailed,
    /// Store this user.
    Insert(User),
}

/// The user that a signup stores for `username` with `password`: that
/// name; a fresh version-4 id; a bcrypt hash of cost `HASH_COST` (60
/// characters starting with `$2b$05$`) that verifies against the password;
/// made and last logged in at the same time.
pub open spec fn signup_user_for(user: User, username: Seq<char>, password: Seq<char>) -> bool {
    &&& user.username@ == username
    &&& user.hash_password@.len() == 60
    &&& user.hash_password@.subrange(0, 7) == bcrypt_prefix(HASH_COST)
    &&& bcrypt_verify_result(password, user.hash_password@) == Some(true)
    &&& user.created_at == user.last_login_at
    &&& (user.id >> 76u128) & 0xfu128 == 4
    &&& (user.id >> 62u128) & 0x3u128 == 2
    &&& user.id != 0
}

/// Continues a signup with the outcome of hashing its password: a failed
/// hash stops it; a hash makes a new user with that name and hash.
pub fn signup_after_hash(username: String, hashed: Option<String>) -> (step: SignupStep)
    ensures
        match hashed {
            None => step is HashFailed,
            Some(h) => step matches SignupStep::Insert(u) && u.username == username
                && u.hash_password == h && u.created_at == u.last_login_at
                && (u.id >> 76u128) & 0xfu128 == 4 && (u.id >> 62u128) & 0x3u128 == 2
                && u.id != 0,
        },
{
    match hashed {
        Some(hash) => SignupStep::Insert(User::new(username, hash)),
        None => SignupStep::HashFailed,
    }
}

/// Hashes a signup's password with `HASH_COST` and makes the user to be
/// stored; only a failure of the hash (its random source) stops it.
pub fn signup_begin(username: String, password: &String) -> (step: SignupStep)
    ensures
        step is HashFailed || (step matches SignupStep::Insert(u) && signup_user_for(
            u,
            username@,
            password@,
        )),
        step matches SignupStep::Insert(u) ==> u.hash_password@.subrange(0, 7) == "$2b$05$"@,
{
    let hashed = bcrypt_hash(password.as_str(), HASH_COST);
    proof {
        reveal_strlit("$2b$05$");
        reveal_strlit("$2b$");
        reveal_strlit("$");
        assert(bcrypt_prefix(HASH_COST) =~= "$2b$05$"@);
    }
    signup_after_hash(username, hashed)
}

/// Ends a signup with the store's answer: success, a taken username, or an
/// internal error.
pub fn signup_complete(insert: Result<(), DbFailure>) -> (reply: Result<(), String>)
    ensures
        match insert {
            Ok(()) => reply is Ok,
            Err(DbFailure::UniqueViolation) => reply matches Err(m) && m@ == username_taken_message(),
            Err(DbFailure::Other) => reply matches Err(m) && m@ == internal_error_message(),
        },
{
    match insert {
        Ok(()) => Ok(()),
        Err(DbFailure::UniqueViolation) => Err(String::from_str("Username already exists.")),
        Err(DbFailure::Other) => Err(String::from_str("Internal Server Error.")),
    }
}

/// The step of a login after the password check.
#[derive(Debug, Clone, PartialEq, Eq)]
pub enum LoginStep {
    /// The login fails with this message.
    Rejected(String),
    /// Record that `username` logged in at `now` (microseconds).
    UpdateLastLogin { username: String, now: i64 },
}

/// What a login does with the outcome of the password check: a match
/// records the login, a mismatch is a wrong password, a check that failed
/// is an internal error.
pub open spec fn login_step_for(step: LoginStep, username: Seq<char>, verified: Option<bool>) -> bool {
    match verified {
        Some(true) => step matches LoginStep::UpdateLastLogin { username: u, .. } && u@ == username,
        Some(false) => step matches LoginStep::Rejected(m) && m@ == wrong_password_message(),
        None => step matches LoginStep::Rejected(m) && m@ == internal_error_message(),
    }
}

/// Decides a login from the outcome of the password check, recording the
/// login at `now`.
pub fn login_decide(username: String, verified: Option<bool>, now: i64) -> (step: LoginStep)
    ensures
        login_step_for(step, username@, verified),
        step matches LoginStep::UpdateLastLogin { now: t, .. } ==> t == now,
{
    match verified {
        Some(true) => LoginStep::UpdateLastLogin { username, now },
        Some(false) => LoginStep::Rejected(String::from_str("Username or password is incorrect.")),
        None => LoginStep::Rejected(String::from_str("Internal Server Error.")),
    }
}

/// Checks a login's password against the stored hash (or the store's
/// failure to find it, an internal error) and decides it, at the current
/// time.
pub fn login_check(username: String, password: &String, stored: Result<String, DbFailure>) -> (step:
    LoginStep)
    ensures
        match stored {
            Err(_) => step matches LoginStep::Rejected(m) && m@ == internal_error_message(),
            Ok(hash) => login_step_for(step, username@, bcrypt_verify_result(password@, hash@)),
        },
{
    match stored {
        Err(_) => LoginStep::Rejected(String::from_str("Internal Server Error.")),
        Ok(hash) => {
            let verified = bcrypt_verify(password.as_str(), hash.as_str());
            login_decide(username, verified, now_micros())
        },
    }
}

/// Ends a login with the store's answer to recording it.
pub fn login_complete(update: Result<(), DbFailure>) -> (reply: Result<(), String>)
    ensures
        match update {
            Ok(()) => reply is Ok,
            Err(_) => reply matches Err(m) && m@ == internal_error_message(),
        },
{
    match update {
        Ok(()) => Ok(()),
        Err(_) => Err(String::from_str("Internal Server Error.")),
    }
}

/// A user stored by a signup with a password can log in with the same
/// password: the login check on the stored hash records the login.
pub proof fn law_signed_up_user_logs_in(user: User, username: Seq<char>, password: Seq<char>)
    requires
        signup_user_for(user, username, password),
    ensures
        bcrypt_verify_result(password, user.hash_password@) == Some(true),
        forall|step: LoginStep|
            login_step_for(step, username, bcrypt_verify_result(password, user.hash_password@))
                ==> step is UpdateLastLogin,
{
}

} // verus!

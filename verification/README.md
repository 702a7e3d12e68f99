# chatroom_project_v3

A chat-room server and its client state, with the decisions proved in Verus.

- `src/` — the verified library:
  - `lobby.rs`: the lobby state machine (sessions, rooms, what each
    connect / disconnect / switch / message sends to whom), its invariant
    and round-trip laws.
  - `ws.rs`: one websocket connection as a state machine (frames,
    heartbeat, lobby messages).
  - `user.rs`: chat and room models of the client, the room-announcement
    JSON, and the login and signup decisions (password hashing through
    `bcrypt`).
  - `ids.rs`: UUID text forms (through the `uuid` crate) and decimal text.
  - `messages.rs`: the messages exchanged by connections and the lobby.
- `app/`: the actix-web server, the actors that run the state machines,
  the database calls, and the leptos user interface.
- `tests/`: tests of the library.

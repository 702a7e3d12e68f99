[package]
name = "chatroom_project_v3"
version = "0.1.0"
edition = "2021"
publish = false

[dependencies]
uuid = { version = "=1.29.0", features = ["v4", "serde"] }
bcrypt = "=0.15.1"
chrono = { version = "=0.4.45", features = ["serde"] }
serde = { version = "=1.0.229", features = ["derive"] }
serde_json = "=1.0.154"
actix = "=0.13.5"
actix-web = "=4.18.1"
actix-web-actors = "=4.3.1"
sqlx = { version = "=0.7.4", default-features = false, features = ["postgres", "runtime-tokio", "chrono", "uuid", "migrate"] }
log = "=0.4.35"
env_logger = { version = "=0.10.2", default-features = false, features = ["color"] }
dotenv = "=0.15.0"
futures = "=0.3.34"
leptos = { version = "=0.5.7", features = ["ssr"] }
leptos_actix = "=0.5.7"
leptos_router = { version = "=0.5.7", features = ["ssr"] }
leptos_meta = { version = "=0.5.7", features = ["ssr"] }
gloo-net = { version = "=0.2.6", features = ["websocket"] }
web-sys = { version = "=0.3.107", features = ["Window", "Location"] }

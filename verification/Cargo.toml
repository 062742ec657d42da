[package]
name = "hewpme"
version = "0.1.0"
edition = "2021"
publish = false

[dependencies]
chrono = "=0.4.45"
twitch_api = { version = "=0.8.0", default-features = false, features = ["eventsub", "helix", "reqwest", "client"] }
twitch_oauth2 = { version = "=0.17.1", default-features = false, features = ["client", "reqwest"] }
tokio = { version = "=1.53.2", features = ["full"] }
tokio-util = "=0.7.19"
tokio-tungstenite = "=0.30.0"
futures = "=0.3.34"
warp = { version = "=0.4.3", features = ["server"] }
reqwest = { version = "=0.13.5", default-features = false }
directories = "=6.0.0"
url = "=2.5.8"

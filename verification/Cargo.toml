[package]
name = "traceroute_vis"
version = "0.1.0"
edition = "2021"
publish = false

[dependencies]
reqwest = { version = "*", default-features = false, features = ["json"] }
serde = { version = "*", features = ["derive"] }
tokio = { version = "*", features = ["rt-multi-thread", "macros"] }
termion = "1.5"
tui = { version = "0.19", default-features = false, features = ["termion"] }

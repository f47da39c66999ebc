[package]
name = "board_plugin"
version = "0.1.0"
edition = "2021"
publish = false

[dependencies]
bevy = { version = "=0.6.1", default-features = false, features = ["render", "bevy_winit", "png", "x11"] }
# Nothing here calls darling. It is named so that bevy builds: the derive
# crates of bevy 0.6 need the `full` feature of syn 1, which they do not ask
# for themselves, and darling's macro crate turns it on for them.
darling = "=0.13.4"
serde = { version = "=1.0.229", features = ["derive"] }

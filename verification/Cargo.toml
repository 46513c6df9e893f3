[package]
name = "nicotine"
version = "0.1.0"
edition = "2021"
publish = false

[dependencies]
ab_glyph = "=0.2.32"
anyhow = "=1.0.104"
daemonize = "=0.5.0"
dirs = "=5.0.1"
evdev = "=0.12.2"
fd-lock = "=4.0.4"
iced = { version = "=0.14.0", default-features = false, features = ["tiny-skia", "x11", "tokio"] }
interprocess = "=2.4.7"
nix = { version = "=0.29.0", features = ["poll", "signal"] }
reqwest = { version = "=0.12.28", default-features = false, features = ["blocking", "json", "rustls-tls"] }
rodio = { version = "=0.23.0", default-features = false, features = ["playback", "mp3"] }
serde = { version = "=1.0.229", features = ["derive"] }
serde_json = "=1.0.154"
toml = "=0.8.23"
uuid = { version = "=1.29.0", features = ["v4"] }
wayland-client = "=0.31.15"
wayland-protocols = { version = "=0.32.13", features = ["client", "staging"] }
x11rb = { version = "=0.13.2", features = ["composite", "damage", "dri3", "present", "render", "xfixes"] }

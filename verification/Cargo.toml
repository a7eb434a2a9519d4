[package]
name = "rigbat"
version = "0.1.0"
edition = "2021"
publish = false

[dependencies]
anyhow = "=1.0.104"
ashpd = { version = "=0.13.13", default-features = false, features = ["tokio", "settings"] }
directories = "=6.0.0"
eframe = { version = "=0.37.0", default-features = false, features = ["glow", "wayland", "x11", "default_fonts"] }
futures-util = "=0.3.34"
ksni = "=0.3.7"
nix = { version = "=0.31.3", features = ["time"] }
notify = "=8.2.1"
serde = { version = "1", features = ["derive"] }
serde_json = "=1.0.154"
tiny-skia = "=0.12.0"
tokio = { version = "=1.54.1", features = ["macros", "rt-multi-thread", "sync", "time"] }
tracing = "0.1"
tracing-subscriber = { version = "0.3", features = ["env-filter"] }
zbus = { version = "=5.19.0", default-features = false, features = ["tokio"] }

[package]
name = "kbhero"
version = "0.1.0"
edition = "2021"
publish = false

[dependencies]
regex = "=1.13.1"
toml = "=1.1.8"
serde = { version = "=1.0.229", features = ["derive"] }
thiserror = "=2.0.21"
tokio = { version = "=1.54.1", features = ["full"] }
atspi = "=0.30.0"
zbus = "=5.19.0"
futures-lite = "=2.6.1"
gtk4 = "=0.11.5"
x11rb = "=0.14.0"

[package]
name = "desktop_cockpit"
version = "0.1.0"
edition = "2021"
publish = false

[dependencies]
chrono = "0.4"
serde = { version = "1", features = ["derive"] }
toml = "0.8"
thiserror = "2"
sysinfo = "0.33"
gtk4 = "0.9"
glib = "0.20"

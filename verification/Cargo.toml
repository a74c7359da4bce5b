[package]
name = "pika_backup"
version = "0.1.0"
edition = "2021"
publish = false

[dependencies]
serde = { version = "1", features = ["derive"] }
serde_json = "1"
futures = "0.3"
zbus = "2"
ashpd = "0.3"
glib = "0.15"
gio = "0.15"
log = "0.4"

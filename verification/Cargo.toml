[package]
name = "dfim"
version = "0.1.0"
edition = "2021"
publish = false

[dependencies]
anyhow = "1"
clap = { version = "4", features = ["derive"] }
fern = { version = "0.6", features = ["colored"] }
home = "0.5"
hostname = "0.3"
humantime = "2"
log = "0.4"
mlua = { version = "0.9", features = ["luajit", "vendored", "serialize"] }
rustyline = "12"
serde = { version = "1", features = ["derive"] }
serde_json = "1"

[package]
name = "safeedit"
version = "0.1.0"
edition = "2021"
publish = false

[dependencies]
anyhow = "1"
arboard = { version = "3", default-features = false }
chardetng = "0.1"
clap = { version = "4", features = ["derive"] }
diffy = "0.4"
encoding_rs = "0.8"
glob = "0.3"
globset = "0.4"
is-terminal = "0.4"
regex = "1"
serde = { version = "1", features = ["derive"] }
serde_json = "1"
serde_yaml = "0.9"
similar = "2"
time = { version = "0.3", features = ["formatting", "parsing"] }
walkdir = "2"

[package]
name = "ue_cell_tracker"
version = "0.1.0"
edition = "2021"
publish = false

[dependencies]
anyhow = "*"
arrow = "*"
bus = "*"
chrono = "*"
clap = { version = "*", features = ["derive"] }
confy = { version = "*", default-features = false, features = ["yaml_conf"] }
ctrlc = "*"
libc = "*"
nix = { version = "*", features = ["process"] }
reqwest = { version = "*", default-features = false, features = ["blocking"] }
serde = { version = "*", features = ["derive"] }
serde_derive = "*"
serde_json = "*"
serde_yaml = "*"

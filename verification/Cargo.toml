[package]
name = "bellande"
version = "0.1.0"
edition = "2021"
publish = false

[dependencies]
bincode = "1.3"
glob = "0.3"
image = { version = "0.24", default-features = false, features = ["jpeg", "png"] }
rand = "0.8"
rand_distr = "0.4"
rayon = "1"
serde = { version = "1", features = ["derive"] }
serde_json = "1"
serde_yaml = "0.9"

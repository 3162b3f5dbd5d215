[package]
name = "cmini"
version = "0.1.0"
edition = "2021"
publish = false

[dependencies]
fxhash = "0.2"
glob = "0.3"
indexmap = { version = "2", features = ["serde"] }
rand = "0.8"
rayon = "1"
serde = { version = "1", features = ["derive"] }
serde_json = "1"
serenity = "0.11"
strsim = "0.11"
thiserror = "1"
tokio = { version = "1", features = ["macros", "rt-multi-thread", "signal", "time"] }

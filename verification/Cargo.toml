[package]
name = "pdb_locator"
version = "0.1.0"
edition = "2021"
publish = false

[dependencies]
cab = "*"
clap = { version = "*", features = ["derive"] }
futures-util = "*"
indicatif = "*"
reqwest = { version = "*", default-features = false, features = ["stream"] }
tokio = { version = "*", features = ["macros", "rt-multi-thread", "fs", "io-util"] }

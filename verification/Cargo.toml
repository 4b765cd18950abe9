[package]
name = "registry_prune"
version = "0.1.0"
edition = "2021"
publish = false

[dependencies]
clap = { version = "*", features = ["derive"] }
futures = "*"
reqwest = { version = "*", default-features = false, features = ["json"] }
serde = { version = "*", features = ["derive"] }
time = { version = "*", features = ["parsing"] }
tokio = { version = "*", features = ["macros", "rt-multi-thread"] }

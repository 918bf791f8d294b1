[package]
name = "rackctl"
version = "0.1.0"
edition = "2021"
publish = false

[dependencies]
serde = { version = "1", features = ["derive"] }
serde_json = "1"
thiserror = "*"
directories = "*"
clap = { version = "4", features = ["derive"] }
clap_complete = "4"

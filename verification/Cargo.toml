[package]
name = "flowstate"
version = "0.1.0"
edition = "2021"
publish = false

[dependencies]
prost = { version = "*", features = ["derive"] }
rusty_enet = "*"

[package]
name = "stacks_payload"
version = "0.1.0"
edition = "2021"
publish = false

[dependencies]
nom = { version = "5.1", default-features = false, features = ["std"] }
arrayvec = { version = "0.5", default-features = false }
sha2 = { version = "0.10", default-features = false }

[package]
name = "lonely_tribes"
version = "0.1.0"
edition = "2021"
publish = false

[dependencies]
rand = "0.8"
rand_pcg = "0.3"
ron = "0.8"
noise = "0.7"
serde = { version = "1", features = ["derive"] }
structopt = "0.3"

[package]
name = "pokedex"
version = "0.1.0"
edition = "2021"
publish = false

[dependencies]
gloo-net = { version = "0.6", default-features = false, features = ["http", "json"] }
leptos = { version = "0.6", features = ["csr"] }
serde = { version = "1", features = ["derive"] }

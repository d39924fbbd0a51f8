[package]
name = "schema_derive"
version = "0.1.0"
edition = "2021"
publish = false

[dependencies]
deluxe = "0.5"
diesel = { version = "2", default-features = false, features = ["postgres_backend", "serde_json"] }
proc-macro2 = "1"
quote = "1"
serde = { version = "1", features = ["derive"] }
serde_json = "1"
syn = { version = "2", features = ["full"] }

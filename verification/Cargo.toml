[package]
name = "olivia"
version = "0.1.0"
edition = "2021"
publish = false

[dependencies]
actix-web = { version = "4", default-features = false, features = ["macros"] }
crossbeam = "0.8"
rustc_apfloat = "0.2"
serde = { version = "1", features = ["derive"] }

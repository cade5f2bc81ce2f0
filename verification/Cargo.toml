[package]
name = "bamboo_feeds"
version = "0.1.0"
edition = "2021"
publish = false

[dependencies]
bamboo-rs-core = "=0.1.0"
hex = "=0.4.3"
serde = { version = "=1.0.229", features = ["derive"] }
rocket = { version = "0.5", features = ["json"] }
rocket_okapi = { version = "=0.9.0", features = ["swagger"] }
schemars = "=0.8.22"
diesel = { version = "=1.4.8", features = ["postgres"] }
dotenv = "=0.15.0"

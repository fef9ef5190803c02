[package]
name = "pakscan"
version = "0.1.0"
edition = "2021"
publish = false

[dependencies]
homm5-types = "*"
quick-xml = { version = "*", features = ["serialize"] }
serde = { version = "*", features = ["derive"] }
rc-zip = "*"
rc-zip-sync = "*"

[dev-dependencies]
zip = "*"

[package]
name = "enwn2odict"
version = "0.1.0"
edition = "2021"
publish = false

[dependencies]
odict = "*"
quick-xml = { version = "*", features = ["serialize"] }
serde = { version = "*", features = ["derive"] }

[package]
name = "hwpx"
version = "0.1.0"
edition = "2021"
publish = false

[dependencies]
quick-xml = "0.36"
zip = { version = "2", default-features = false, features = ["deflate"] }

[dev-dependencies]
tempfile = "3"

[package]
name = "lite_jvm"
version = "0.1.0"
edition = "2021"
publish = false

[dependencies]
cesu8 = "1.1"
indexmap = "2"
zip = { version = "0.6", default-features = false, features = ["deflate"] }

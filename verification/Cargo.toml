[package]
name = "sazparser"
version = "0.1.0"
edition = "2021"
publish = false

[dependencies]
regex = "1"
select = "*"
zip = { version = "0.6", default-features = false, features = ["deflate"] }

[package]
name = "flair_core"
version = "0.1.0"
edition = "2021"
publish = false

[dependencies]
lightningcss = { version = "=1.0.0-alpha.72", features = ["browserslist"] }
regex = "*"
indexmap = "*"

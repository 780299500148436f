[package]
name = "strict_types"
version = "0.1.0"
edition = "2021"
publish = false

[dependencies]
amplify = "4"
indexmap = "1.9"

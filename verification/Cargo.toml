[package]
name = "tzif_codec"
version = "0.1.0"
edition = "2021"
publish = false

[dependencies]
thiserror = "2"

[dev-dependencies]
jiff = "0.2"

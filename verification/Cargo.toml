[package]
name = "randomprime"
version = "0.1.0"
edition = "2021"
publish = false

[dependencies]
byteorder = "1"
flate2 = "1"
adler32 = "1"
encoding = "0.2"
serde = { version = "1", features = ["derive"] }
serde_json = "1"
clap = "2"
image = { version = "0.23", default-features = false, features = ["png"] }
memmap = "0.7"
rand = "0.7"

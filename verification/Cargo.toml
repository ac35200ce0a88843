[package]
name = "extract_firmware_nouveau"
version = "0.1.0"
edition = "2021"
publish = false

[dependencies]
byteorder = "1"
clap = { version = "4", features = ["derive"] }
flate2 = "1"
itertools = "*"
regex = "1"
tempfile = "3"

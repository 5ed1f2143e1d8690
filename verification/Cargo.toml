[package]
name = "quantcore"
version = "0.1.0"
edition = "2021"
publish = false

[dependencies]
anyhow = "1"
byteorder = "1"
candle-core = "0.9.1"
candle-nn = "0.9.1"
clap = { version = "4", features = ["derive"] }
half = "2"
indexmap = { version = "2", features = ["serde"] }
rayon = "1"
regex = "1"
serde = { version = "1", features = ["derive"] }
serde-saphyr = "*"

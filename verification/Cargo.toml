[package]
name = "zpm"
version = "0.1.0"
edition = "2021"
publish = false

[dependencies]
arca = "*"
bincode = "2"
bytes = "1"
clap = { version = "4", features = ["derive"] }
clipanion = "*"
colored = "*"
convert_case = "*"
ecow = "*"
fancy-regex = "*"
flate2 = "1"
futures = "0.3"
hex = "0.4"
once_cell = "1"
rand = "0.8"
rayon = "1"
regex = "1"
rkyv = "0.8"
serde = { version = "1", features = ["derive"] }
serde_json = "1"
serde_with = "3"
serde_yaml = "0.9"
sha2 = "0.10"
sonic-rs = "*"
thiserror = "*"
tokio = { version = "1", features = ["rt-multi-thread", "macros", "process"] }
urlencoding = "2"
wax = "0.6"
zip = { version = "2", default-features = false, features = ["deflate"] }

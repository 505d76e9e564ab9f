[package]
name = "rutty"
version = "0.1.0"
edition = "2021"
publish = false

[dependencies]
anyhow = "1"
async-io = "2"
async-recursion = "1"
futures = "0.3"
indicatif = "0.17"
nix = { version = "0.29", features = ["fs", "ioctl", "term", "user"] }
ssh2 = "0.9"
structopt = "0.3"
tokio = { version = "1", features = ["fs", "io-std", "io-util", "macros", "net", "rt", "time"] }
zeroize = "1"

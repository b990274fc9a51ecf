[package]
name = "local-polkadot"
version = "0.1.0"
edition = "2021"
publish = false

[dependencies]
anyhow = "1"
clap = { version = "4", features = ["derive"] }
cliclack = "*"
console = "*"
crossterm = "*"
ctrlc = "3"
fastrand = "2"
reqwest = { version = "*", features = ["blocking"] }
which = "*"
zip = { version = "*", default-features = false, features = ["deflate"] }

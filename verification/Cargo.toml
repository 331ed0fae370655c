[package]
name = "proton_cli"
version = "0.1.0"
edition = "2021"
publish = false

[dependencies]
openssl = "*"
git2 = "*"
postgres = "*"
docopt = "*"
serde = { version = "*", features = ["derive"] }

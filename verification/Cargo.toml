[package]
name = "git-sign-verifier"
version = "0.1.0"
edition = "2021"
publish = false

[dependencies]
clap = { version = "4", features = ["derive"] }
git2 = { version = "*", default-features = false }
gpgme = "*"

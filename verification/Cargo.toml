[package]
name = "token_ledger"
version = "0.1.0"
edition = "2021"
publish = false

[dependencies]
k256 = "*"
sha2 = "*"
subtle = "*"

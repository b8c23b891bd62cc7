[package]
name = "account_setup"
version = "0.1.0"
edition = "2021"

[dependencies]
sha2 = "0.10"
base64 = "0.22"
getrandom = "0.2"
keyring = "2"
duct = "0.13"
clap = "4"
dialoguer = "0.11"

[package]
name = "kaku_sftp"
version = "0.1.0"
edition = "2021"
publish = false

[dependencies]
anyhow = "1"
dirs-next = "2"
log = "0.4"
smol = "2"
termwiz = "0.23"
textwrap = "0.16"
toml = "0.8"

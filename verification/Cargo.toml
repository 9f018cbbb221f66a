[package]
name = "arvore"
version = "0.1.0"
edition = "2021"
publish = false

[dependencies]
anyhow = "*"
clap = "*"
clap_complete = "*"
colored = "*"
dialoguer = "*"
dirs = "*"
serde_yml = "*"

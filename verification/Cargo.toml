[package]
name = "change_workspace"
version = "0.1.0"
edition = "2021"
publish = false

[dependencies]
dirs = "*"
once_cell = "*"
structopt = "*"

[package]
name = "rosedale"
version = "0.1.0"
edition = "2021"
publish = false

[dependencies]
anyhow = "*"
cpal = "*"
midir = "*"
rtrb = "*"
wmidi = "*"

[package]
name = "rivia_file"
version = "0.1.0"
edition = "2021"
publish = false

[dependencies]
regex = "1"
rivia-vfs = "*"

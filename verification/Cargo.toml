[package]
name = "secmail"
version = "0.1.0"
edition = "2021"
publish = false

[dependencies]
anyhow = "1"
minreq = { version = "2", features = ["https"] }
inquire = "*"
copypasta-ext = "*"
webbrowser = "*"

[package]
name = "tic_tac_toe_server"
version = "0.1.0"
edition = "2021"
publish = false

[dependencies]
uuid = { version = "*", features = ["v4"] }
names = "*"
actix = "*"
actix-web = "*"
actix-web-actors = "*"
actix-rt = "*"

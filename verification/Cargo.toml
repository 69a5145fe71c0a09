[package]
name = "otp_auth"
version = "0.1.0"
edition = "2021"
publish = false

[dependencies]
chrono = "0.4"
des = "0.8"
encoding_rs = "0.8"
hex = "0.4"

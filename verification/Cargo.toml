[package]
name = "arcon_state"
version = "0.1.0"
edition = "2021"
publish = false

[dependencies]
fastrand = "1"
prost = { version = "*", default-features = false, features = ["std"] }
snafu = "*"
proc-macro2 = "1"
quote = "1"
kompact = "*"

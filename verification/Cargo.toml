[package]
name = "crossscp"
version = "0.1.0"
edition = "2021"
publish = false

[dependencies]
suppaftp = { version = "*", features = ["native-tls"] }
ssh2 = "*"
zeroize = { version = "*", features = ["derive"] }

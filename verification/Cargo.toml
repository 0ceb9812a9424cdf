[package]
name = "egress_proxy"
version = "0.1.0"
edition = "2021"
publish = false

[dependencies]
base64 = "0.13"
bcrypt = "0.15"
cidr = "0.2"
dotenv = "0.15"
getopts = "0.2"
hyper = { version = "0.14", features = ["full"] }
rand = "0.8"
tokio = { version = "1", features = ["full"] }

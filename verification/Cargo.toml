[package]
name = "resistor_net"
version = "0.1.0"
edition = "2021"
publish = false

[dependencies]
f256 = "*"
rand = "0.9"
chrono = "0.4"
itertools = "*"
clap = { version = "4", features = ["derive"] }

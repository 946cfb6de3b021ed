[package]
name = "rann"
version = "0.1.0"
edition = "2021"
publish = false

[dependencies]
arrayvec = "0.7"
fastrand = "2"
rayon = "1"
thiserror = "1"

[dev-dependencies]
float-cmp = "0.9"

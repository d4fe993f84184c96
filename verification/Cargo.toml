[package]
name = "tiler"
version = "0.1.0"
edition = "2021"
publish = false

[dependencies]
anyhow = "*"
colorous = "*"
image = "*"
ndarray = "*"
netcdf = { version = "*", features = ["ndarray"] }

[package]
name = "pool_table"
version = "0.1.0"
edition = "2021"
publish = false

[dependencies]
log = "=0.4.34"
nalgebra = "=0.29.0"
ncollide2d = "=0.32.0"
nphysics2d = "=0.24.0"
quicksilver = { version = "=0.3.22", default-features = false }
web_logger = "=0.2.0"

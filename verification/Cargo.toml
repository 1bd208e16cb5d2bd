[package]
name = "ahrs_filter"
version = "0.1.0"
edition = "2021"
publish = false

[dependencies]
quaternion = "*"
quaternion-core = "*"
rand = "*"

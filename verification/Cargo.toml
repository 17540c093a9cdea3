[package]
name = "cuna"
version = "0.7.0"
edition = "2021"

[dependencies]
thiserror = "=1.0.69"

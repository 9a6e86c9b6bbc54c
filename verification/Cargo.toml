[package]
name = "raycast_engine"
version = "0.1.0"
edition = "2021"
publish = false

[dependencies]
crossterm = "=0.29.0"
eyre = "=0.6.14"

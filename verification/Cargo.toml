[package]
name = "camera_lens"
version = "0.1.0"
edition = "2021"
publish = false

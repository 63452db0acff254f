[package]
name = "parallaxation2d"
version = "0.1.0"
edition = "2021"

[dependencies]
bitflags = "2"

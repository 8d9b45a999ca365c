[package]
name = "velocitas_fix"
version = "0.1.0"
edition = "2021"
publish = false

[dependencies]
hdrhistogram = "7"
memmap2 = "0.9"

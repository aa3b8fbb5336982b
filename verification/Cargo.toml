[package]
name = "pincushion"
version = "0.1.0"
edition = "2021"
publish = false

[dependencies]
tes3 = "*"
clap = { version = "4", features = ["derive"] }
openmw-config = "*"
vfstool_lib = "*"

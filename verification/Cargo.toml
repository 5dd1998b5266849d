[package]
name = "defmt_rtrb"
version = "0.1.0"
edition = "2021"
publish = false

[dependencies]
rtrb = "*"
critical-section = "*"
defmt = "*"

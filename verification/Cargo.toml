[package]
name = "danos"
version = "0.1.0"
edition = "2021"
publish = false

[dependencies]
critical-section = "1"
enumflags2 = "0.7"
once_cell = "1"

[package]
name = "kilo_edit"
version = "0.1.0"
edition = "2021"
publish = false

[dependencies]
unicode-width = "=0.1.10"
crossterm = "0.24"
async-std = "1"
error-stack = "0.2"

[package]
name = "compiler"
version = "0.1.0"
edition = "2021"
publish = false

[dependencies]
ena = "0.14"
ariadne = "0.4"

[package]
name = "worldgen"
version = "0.1.0"
edition = "2021"
publish = false

[dependencies]
rand = "=0.7.3"
num = "0.4"
take_mut = "0.2"

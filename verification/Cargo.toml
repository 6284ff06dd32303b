[package]
name = "universal_engine"
version = "0.1.0"
edition = "2021"
publish = false

[dependencies]
region = "3.0"
rkyv = "0.7"
enumset = "1.0"
structopt = "0.3"
anyhow = "1.0"
cfg-if = "1.0"

[package]
name = "strat_engine"
version = "0.1.0"
edition = "2021"
publish = false

[dependencies]
devicemapper = "=0.28.1"
uuid = "=0.8.2"

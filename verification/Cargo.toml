[package]
name = "runebender"
version = "0.1.0"
edition = "2021"
publish = false

[dependencies]
druid = "0.7"
norad = "0.4"

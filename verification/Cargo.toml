[package]
name = "project_finder"
version = "0.0.1"
edition = "2021"
publish = false

[dependencies]
clap = "3"
colored = "2"

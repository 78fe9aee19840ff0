[package]
name = "ant_colony"
version = "0.1.0"
edition = "2021"
publish = false

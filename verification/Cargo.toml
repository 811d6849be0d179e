[package]
name = "chalk"
version = "0.1.0"
edition = "2021"
publish = false

[dependencies]
lalrpop-intern = "=0.15.1"

[dev-dependencies]
chalk-ir = "=0.104.0"

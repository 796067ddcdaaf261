[package]
name = "datasus_dbc"
version = "0.1.0"
edition = "2021"
publish = false

[dependencies]
explode = "0.1"

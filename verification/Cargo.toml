[package]
name = "datasource_contracts"
version = "0.1.0"
edition = "2021"
publish = false

[dependencies]
alloy-sol-types = "*"
stylus-sdk = "*"

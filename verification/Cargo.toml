[package]
name = "oxc_zed"
version = "0.4.4"
edition = "2021"
publish = false

[dependencies]
zed_extension_api = "0.7"
log = "0.4"

[package]
name = "plugin_core"
version = "0.1.0"
edition = "2021"
publish = false

[dependencies]
nu-plugin = "=0.115.1"
nu-protocol = "=0.115.1"

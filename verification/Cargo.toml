[package]
name = "nu_plugin_json_path"
version = "0.1.0"
edition = "2021"
publish = false

[dependencies]
serde_json = "=1.0.151"
serde_json_path = "=0.7.2"
nu-protocol = "=0.110.0"
nu-plugin = "=0.110.0"
interprocess = "~2.2"
bytemuck = "1"

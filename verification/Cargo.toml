[package]
name = "rpi_mesh_plugin_manager"
version = "0.1.0"
edition = "2021"
publish = false

[dependencies]
fs_extra = "1"
reqwest = { version = "*", features = ["blocking"] }

[package]
name = "taep_controller"
version = "0.1.0"
edition = "2021"
publish = false

[dependencies]
iron = "0.6"
router = "0.6"
hyper = "0.10"
rustc-serialize = "0.3"
yaml-rust = "0.4"

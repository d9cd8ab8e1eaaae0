[package]
name = "mlsim_common"
version = "0.1.0"
edition = "2021"
publish = false

[dependencies]
fastrand = "2"
serde = { version = "1", features = ["derive"] }
bincode = "1"
glam = { version = "0.27", features = ["serde"] }
egui = { version = "0.28", default-features = false, features = ["default_fonts"] }
directories = "5"
env_logger = { version = "0.11", default-features = false }
log = "0.4"

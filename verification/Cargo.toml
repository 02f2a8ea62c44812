[package]
name = "jwt_cracker"
version = "0.2.1"
edition = "2021"
publish = false

[dependencies]
base64 = "=0.22.1"
clap = { version = "=4.6.7", features = ["derive"] }
crossbeam-channel = "=0.5.17"
eframe = { version = "=0.37.0", default-features = false, features = ["default_fonts", "glow", "x11"] }
egui = "=0.37.0"
egui_extras = "=0.37.0"
hmac = "=0.13.0"
indicatif = "=0.18.6"
jsonwebtoken = { version = "=11.1.0", features = ["rust_crypto"] }
rand = "=0.9.5"
rayon = "=1.12.0"
serde_json = "=1.0.154"
sha2 = "=0.11.1"

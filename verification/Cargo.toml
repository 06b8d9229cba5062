[package]
name = "mod_manager"
version = "0.1.0"
edition = "2021"
publish = false

[dependencies]
lnk = "=0.6.4"
mslnk = "=0.1.8"
serde = { version = "=1.0.229", features = ["derive"] }
serde_json = "=1.0.154"
toml = "=1.1.8"
thiserror = "=2.0.21"
dirs = "=7.0.0"
fs_extra = "=1.3.0"
smol = "=2.0.2"
eframe = { version = "*", default-features = false, features = ["glow", "default_fonts"] }
egui = "*"
egui_extras = { version = "*", default-features = false }

[package]
name = "clearxr-space"
version = "0.1.0"
edition = "2021"
publish = false

[dependencies]
anyhow = "1"
ash = "0.38"
ash-window = "0.13"
cpal = "0.18"
ctrlc = "3"
directories = "6"
egui = "0.31"
egui-ash-renderer = "0.8"
enigo = { version = "0.6", default-features = false, features = ["x11rb"] }
env_logger = "0.11"
epaint = "0.31"
glam = "0.29"
hound = "3"
image = { version = "0.25", default-features = false, features = ["png"] }
log = "0.4"
notify = "8"
openxr = { version = "0.18", default-features = false, features = ["loaded"] }
raw-window-handle = "0.6"
serde = { version = "1", features = ["derive"] }
serde_json = "1"
steamlocate = "2"
toml = "1"
ul-next = "*"
winit = { version = "0.30", default-features = false, features = ["x11", "rwh_06"] }

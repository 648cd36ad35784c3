[package]
name = "hybrid_screen_capture"
version = "0.1.0"
edition = "2021"
publish = false

[dependencies]
fast_image_resize = "5"
memmap2 = "0.9"
tempfile = "3"
serde_json = "1"
anyhow = "1"
clap = { version = "4", features = ["derive"] }
tokio = { version = "1", features = ["rt-multi-thread", "macros", "sync", "time"] }
async-trait = "0.1"
futures-util = "0.3"
crossbeam-channel = "0.5"
once_cell = "1"
glib = "0.20"
gstreamer = "0.23"
gstreamer-app = "0.23"
gstreamer-rtsp-server = "0.23"
ashpd = "0.9"

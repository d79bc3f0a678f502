[package]
name = "player"
version = "0.1.0"
edition = "2021"
publish = false

[dependencies]
url = "=2.5.8"
re_mp4 = "=0.5.1"
iso8601-duration = "=0.2.0"
quick-xml = { version = "=0.42.0", features = ["serialize"] }
serde = { version = "=1.0.229", features = ["derive"] }
reqwest = "=0.12.28"
tokio = { version = "=1.54.1", features = ["full"] }
pollster = "=1.0.1"
bytemuck = { version = "=1.25.2", features = ["derive"] }
ffmpeg-next = "7"
ffmpeg-sys-next = "7"
winit = "0.30"
x11 = { version = "2", features = ["xlib"] }
wayland-client = "0.29"

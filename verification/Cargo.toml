[package]
name = "sswm"
version = "0.1.0"
edition = "2021"
publish = false

[dependencies]
anyhow = "1"
confy = "0.5"
penrose = "0.3"
serde = { version = "1", features = ["derive"] }
smithay = { version = "*", default-features = false, features = ["backend_winit", "desktop", "renderer_gl", "wayland_frontend"] }
tracing = "0.1"
tracing-subscriber = "0.3"

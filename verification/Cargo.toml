[package]
name = "lite_dev_cpp"
version = "0.1.0"
edition = "2021"
publish = false

[dependencies]
directories = "6"
serde = { version = "1", features = ["derive"] }
toml = "0.8"
eframe = { version = "0.31", default-features = false, features = ["default_fonts", "glow", "x11"] }
rfd = { version = "0.15", default-features = false, features = ["xdg-portal", "tokio"] }

[package]
name = "wallgen"
version = "0.1.0"
edition = "2021"
publish = false

[dependencies]
anyhow = "*"
clap = { version = "4", features = ["derive"] }
dirs = "*"
env_logger = "*"
image = { version = "*", default-features = false, features = ["png", "jpeg"] }
imghdr = "*"
kmeans_colors = "*"
log = "*"
minijinja = "*"
palette = "*"
serde = { version = "*", features = ["derive"] }
shellexpand = "*"
toml = "*"

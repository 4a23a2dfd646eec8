[package]
name = "digit_cnn"
version = "0.1.0"
edition = "2021"
publish = false

[dependencies]
bincode = { version = "=2.0.0-rc.3", default-features = false }
burn = { version = "=0.9.0", features = ["autodiff"] }
burn-train = { version = "=0.9.0", default-features = false }
burn-wgpu = "=0.9.0"
polars = { version = "=0.33.2", default-features = false, features = ["csv", "ndarray"] }
plotly = "=0.8.4"
serde = { version = "=1.0.229", features = ["derive"] }

[dev-dependencies]
burn-ndarray = "=0.9.0"

[package]
name = "n_body_animated"
version = "0.1.0"
edition = "2021"
publish = false

[dependencies]
approx = "0.5"
nalgebra = "0.31"
ode_solvers = "0.3.7"
plotters = { version = "0.3", default-features = false, features = ["bitmap_backend", "bitmap_gif"] }
serde = { version = "1", features = ["derive"] }
serde_json = "1"

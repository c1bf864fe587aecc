[package]
name = "cargo-criterion"
version = "1.1.0"
edition = "2021"
publish = false

[dependencies]
linked-hash-map = "0.5"
linked_hash_set = "0.1"
anyhow = "1"
atty = "0.2"
chrono = "0.4"
clap = "2"
criterion-plot = "0.4"
lazy_static = "1"
log = "0.4"
serde = { version = "1", features = ["derive"] }
serde_derive = "1"
serde_cbor = "0.11"
serde_json = "1"
simplelog = "0.9"
tinytemplate = "1"
toml = "0.5"
walkdir = "2"
plotters = { version = "0.3", default-features = false, features = ["svg_backend", "line_series", "area_series", "point_series"] }

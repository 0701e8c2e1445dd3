[package]
name = "gtfs_geojson"
version = "0.1.0"
edition = "2021"
publish = false

[dependencies]
clap = { version = "*", features = ["derive"] }
geojson = "*"
gtfs-structures = "*"
serde_json = "*"

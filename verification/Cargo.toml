[package]
name = "rgis_core"
version = "0.1.0"
edition = "2021"
publish = false

[dependencies]
geo = "=0.33.1"
geojson = { version = "=1.0.0", features = ["geo-types"] }
serde_json = "=1.0.151"
colorous = "=1.0.16"
proj4rs = { version = "=0.2.0", features = ["crs-definitions", "geo-types"] }

[package]
name = "b3dm_tiles"
version = "0.1.0"
edition = "2021"
publish = false

[dependencies]
byteorder = "=1.5.0"
earcutr = "=0.3.0"
geo = "=0.33.1"
geotiff-rs = "=0.1.1"
gfx-maths = "=0.2.9"
gltf = { version = "=1.1.0", default-features = false, features = ["extras", "names"] }
gltf-json = { version = "=1.1.0", features = ["extras", "names"] }
serde = { version = "=1.0.229", features = ["derive"] }
serde_json = "=1.0.154"
shapefile = { version = "=0.9.0", features = ["geo-types"] }

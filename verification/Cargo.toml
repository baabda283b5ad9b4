[package]
name = "s2_tracts"
version = "0.1.0"
edition = "2021"
publish = false

[dependencies]
flatgeobuf = { version = "=6.0.1", default-features = false }
geo = "=0.33.1"
geozero = { version = "=0.15.1", default-features = false, features = ["with-geo"] }
s2 = "=0.2.0"
serde_json = "=1.0.154"
thiserror = "=2.0.21"
zstd = "=0.14.3"

[dev-dependencies]
tempfile = "=3.27.0"

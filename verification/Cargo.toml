[package]
name = "sermon"
version = "0.1.0"
edition = "2021"
publish = false

[dependencies]
ulid = "*"
blake3 = "*"
lofty = "*"
symphonia = { version = "*", features = ["all"] }
rusqlite = { version = "*", features = ["bundled"] }
rubato = "*"
serde = { version = "*", features = ["derive"] }
serde_json = "*"
thiserror = "*"
globset = "*"
walkdir = "*"
id3 = "*"
dsf = "*"
dff-meta = "*"

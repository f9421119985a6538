[package]
name = "clip_mash"
version = "0.1.0"
edition = "2021"
publish = false

[dependencies]
rand = "0.8"
url = "2"
camino = "1"
serde = { version = "1", features = ["derive"] }
serde_json = "1"
serde_yaml = "0.9"
float-cmp = "0.9"
itertools = "0.12"
tracing = "0.1"
tokio = { version = "1", features = ["process", "fs", "sync", "time", "rt", "macros"] }
minijinja = "1"
regex = "1"
lazy_static = "1"
semver = "1"
color-eyre = "0.6"
reqwest = { version = "0.11", default-features = false, features = ["json"] }
walkdir = "2"
futures = "0.3"
time = { version = "0.3", features = ["parsing"] }
serde_with = "3"
directories = "5"
tar = "0.4"
xz2 = "0.1"
zip = { version = "0.6", default-features = false, features = ["deflate"] }
libflate = "2"
self-replace = "1"
clap = { version = "4", features = ["derive"] }
comfy-table = "7"
youtube_dl = { version = "0.9", default-features = false, features = ["tokio"] }
utoipa = "4"

[package]
name = "pinlocal"
version = "0.1.0"
edition = "2021"
publish = false

[dependencies]
xxhash-rust = { version = "=0.8.19", features = ["xxh3"] }
dunce = "=1.0.5"
heck = "=0.5.0"
uuid = { version = "=1.29.0", features = ["v4"] }
rand = "=0.9.5"
camino = "=1.2.6"
chrono = "=0.4.45"
serde = { version = "=1.0.229", features = ["derive"] }
serde_json = "=1.0.154"
rusqlite = { version = "=0.41.1", features = ["bundled"] }
log = "0.4"
anyhow = "1"
thiserror = "2"
crossbeam-channel = "0.5"
parking_lot = "0.12"
rayon = "1"
ignore = "0.4"
notify = "*"
notify-debouncer-mini = "*"
tempfile = "3"
trash = "*"
image = { version = "0.25", default-features = false, features = ["jpeg", "png", "webp", "gif", "bmp", "tiff"] }
webp = "*"
fast_image_resize = "*"
byteorder = "1"
ndarray = "*"
dashmap = "*"
itertools = "*"

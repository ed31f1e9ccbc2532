[package]
name = "rss_gen"
version = "0.1.0"
edition = "2021"
publish = false

[dependencies]
dtt = "0.0.8"
log = "0.4"
quick-xml = "0.36"
serde = { version = "1.0", features = ["derive"] }
thiserror = "1.0"
time = { version = "0.3", features = ["parsing"] }
url = "2.5"

[package]
name = "photo_viewer"
version = "0.1.0"
edition = "2021"
publish = false

[dependencies]
chrono = { version = "=0.4.45", default-features = false, features = ["std"] }
gdk-pixbuf = "=0.22.0"
gtk4 = "=0.11.5"
image = { version = "=0.25.10", default-features = false }
libadwaita = { version = "=0.9.2", features = ["v1_5"] }
tokio = { version = "=1.54.1", default-features = false, features = ["rt", "sync"] }
tracing = "=0.1.44"

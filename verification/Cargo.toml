[package]
name = "gfoc"
version = "0.1.0"
edition = "2021"
publish = false

[dependencies]
serde = { version = "=1.0.229", features = ["derive"] }
serde_json = "=1.0.154"
thiserror = "=2.0.21"
tokio = { version = "=1.54.1", features = ["rt-multi-thread", "macros", "time", "io-util", "sync"] }
tokio-serial = { version = "=5.5.0", default-features = false }
libm = "=0.2.16"
embassy-time = "=0.5.1"
iced = { version = "=0.14.0", default-features = false, features = ["tiny-skia", "tokio", "x11"] }

[dev-dependencies]
postcard = { version = "=1.1.3", default-features = false }

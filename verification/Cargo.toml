[package]
name = "rustcast"
version = "0.1.0"
edition = "2021"
publish = false

[dependencies]
arboard = { version = "=3.7.0", default-features = false, features = ["image-data"] }
iced = { version = "=0.14.0", default-features = false, features = ["tokio", "x11"] }
log = "0.4"
objc2-core-foundation = { version = "=0.3.2", default-features = false, features = ["std", "CFMachPort", "CFRunLoop"] }
objc2-core-graphics = { version = "=0.3.2", default-features = false, features = ["std", "CGEvent", "CGEventTypes"] }
rusqlite = { version = "=0.41.1", default-features = false, features = ["bundled"] }
serde = { version = "1", features = ["derive"] }
steel-core = { version = "=0.8.3", features = ["sync"] }
tokio = { version = "1", features = ["rt", "rt-multi-thread"] }
toml = "=1.1.8"

[package]
name = "lorecore"
version = "0.1.0"
edition = "2021"
publish = false

[dependencies]
libc = "0.2"
diesel = { version = "2", default-features = false, features = ["sqlite"] }
libsqlite3-sys = { version = "*", features = ["bundled"] }

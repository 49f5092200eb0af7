[package]
name = "bundle_extractor"
version = "0.1.0"
edition = "2021"
publish = false

[dependencies]
numeric-sort = "=0.1.5"
rabex = "=0.2.1"
iced = { version = "=0.14.0", default-features = false, features = ["tiny-skia", "x11", "thread-pool"] }
rfd = { version = "=0.17.2", default-features = false, features = ["xdg-portal"] }
open = "=5.4.5"

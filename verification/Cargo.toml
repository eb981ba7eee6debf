[package]
name = "ironspdk"
version = "0.1.0"
edition = "2021"
publish = false

[dependencies]
ctor = "0.4"
glob = "0.3"
log = "0.4"
parking_lot = "0.12"
paste = "1"
smallvec = "1"
thiserror = "2"

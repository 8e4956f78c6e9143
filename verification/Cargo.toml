[package]
name = "keep_core"
version = "0.1.0"
edition = "2021"
publish = false

[dependencies]
anyhow = "*"
kvm-ioctls = "*"
kvm-bindings = "*"
libc = "*"
mmarinus = "*"
sallyport = "*"

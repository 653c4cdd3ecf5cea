[package]
name = "squeak"
version = "0.1.0"
edition = "2021"
publish = false

[dependencies]
crossbeam-queue = "=0.3.14"
x86_64 = { version = "=0.15.5", default-features = false, features = ["instructions"] }
gc = "=0.5.1"
shredder = "=0.2.0"
nix = { version = "=0.31.3", features = ["mount", "process"] }
shared_memory = "=0.12.4"
wayland-server = "=0.31.14"
stdweb = "=0.4.20"
bootloader = { version = "=0.9.35", features = ["map_physical_memory"] }
lazy_static = "=1.5.1"

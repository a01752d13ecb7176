[package]
name = "shared_scheduler"
version = "0.1.0"
edition = "2021"
publish = false

[dependencies]
spin = "0.9"
buddy_system_allocator = "0.9"
lazy_static = { version = "1.4", features = ["spin_no_std"] }

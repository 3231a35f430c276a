[package]
name = "profile_pipeline"
version = "0.1.0"
edition = "2021"
publish = false

[dependencies]
anyhow = "*"
aya = "*"
aya-log = "*"
blazesym = "*"
bytes = "*"
env_logger = "*"
libc = "*"
log = "*"
tokio = { version = "*", features = ["macros", "rt-multi-thread", "signal"] }

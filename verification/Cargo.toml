[package]
name = "pop"
version = "0.1.0"
edition = "2021"
publish = false

[dependencies]
infer = "=0.22.0"
bytes = "*"
anyhow = "*"
atty = "*"
log = "*"
pretty_env_logger = "*"
reqwest = { version = "*", default-features = false, features = ["blocking", "multipart", "json"] }
serde = { version = "*", features = ["derive"] }
serde_json = "*"
structopt = "*"
tokio = { version = "*", features = ["macros", "rt-multi-thread"] }
warp = { version = "=0.4.3", features = ["server"] }

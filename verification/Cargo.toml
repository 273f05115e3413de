[package]
name = "rmd"
version = "0.1.0"
edition = "2021"
publish = false

[dependencies]
anyhow = "=1.0.104"
env_logger = "=0.11.11"
fuser = "=0.17.0"
libc = "=0.2.191"
log = "0.4"
netlink-bindings = { version = "=0.3.5", features = ["rt-route"] }
netlink-socket2 = { version = "=0.3.5", features = ["tokio"] }
russh = { version = "=0.57.1", default-features = false, features = ["ring"] }
russh-sftp = "=2.1.2"
serde = { version = "1", features = ["derive"] }
serde_json = "1"
thiserror = "2"
tokio = { version = "=1.54.1", features = ["full"] }
uuid = { version = "=1.29.0", features = ["v4"] }

[package]
name = "raqbot"
version = "0.1.0"
edition = "2021"
publish = false

[dependencies]
aes = "0.8"
cbc = { version = "0.1", features = ["alloc"] }
rand = "0.8"
anyhow = "1"
async-trait = "0.1"
azalea = "0.6.0"
azalea-buf = "0.6.0"
azalea-client = "0.6.0"
azalea-core = "0.6.0"
azalea-ecs = "0.6.0"
azalea-protocol = "0.6.0"
const_format = "0.2"
env_logger = "0.10"
log = "0.4"
thiserror = "1"
tokio = { version = "1", features = ["macros", "net", "rt-multi-thread", "signal"] }
uuid = "1"

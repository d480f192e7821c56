[package]
name = "tzmcfi_tools"
version = "0.1.0"
edition = "2021"
publish = false

[dependencies]
aho-corasick = "=0.7.20"
regex = "=1.13.1"
unicase = "=2.10.0"
nom = "=3.2.1"
structopt = "=0.3.26"
tokio = { version = "=0.2.25", features = ["full"] }
tokio-serial = { version = "=4.3.3", default-features = false }
mio-serial = { version = "=3.3.1", default-features = false }
serde = { version = "=1.0.229", features = ["derive"] }
serde_json = "=1.0.154"
chrono = "=0.4.45"
log = "=0.4.34"
env_logger = "=0.7.1"
goblin = "=0.2.3"
memmap = "=0.7.0"

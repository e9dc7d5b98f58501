[package]
name = "bgp"
version = "0.1.0"
edition = "2021"
publish = false

[dependencies]
arrow-array = "=59.3.2"
arrow-buffer = "=59.3.2"
arrow-schema = "=59.3.2"
bgpkit-parser = { version = "=0.23.0", default-features = false, features = ["parser"] }
bzip2-rs = "=0.1.2"
env_logger = "=0.11.11"
flate2 = "=1.1.10"
futures = "=0.3.34"
glob = "=0.3.4"
object_store = { version = "=0.14.2", features = ["aws", "http"] }
percent-encoding = "=2.3.2"
tokio = { version = "=1.54.1", features = ["rt-multi-thread"] }
url = "=2.5.8"
vgi = "=0.19.0"
vgi-rpc = "=0.11.0"

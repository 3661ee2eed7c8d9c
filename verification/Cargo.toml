[package]
name = "bootsim"
version = "0.1.0"
edition = "2021"
publish = false

[dependencies]
aes-ctr = "0.6"
base64 = "0.11"
byteorder = "1.3"
chrono = "0.4"
docopt = "1.1"
env_logger = "0.7"
failure = "0.1"
libc = "0.2"
log = "0.4"
num_cpus = "1.13"
pem = "0.7"
rand = { version = "0.7", features = ["small_rng"] }
ring = "0.16"
serde = "1.0"
serde_derive = "1.0"
std-semaphore = "0.1"
thiserror = "1.0"
yaml-rust = "0.4"

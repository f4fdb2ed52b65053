[package]
name = "mandelatar_core"
version = "0.1.0"
edition = "2021"
publish = false

[dependencies]
base64 = "0.13"
image = { version = "0.24", default-features = false, features = ["png"] }
rand = "0.8"
rayon = "1"
num = "0.4"
actix-web = "4"
actix-cors = "0.6"
tokio = { version = "1", features = ["macros", "rt-multi-thread"] }
env_logger = "0.10"
log = "0.4"
url = "2"

[dev-dependencies]
bincode = "1.3"

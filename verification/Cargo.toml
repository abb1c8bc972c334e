[package]
name = "availability_oracle"
version = "0.1.0"
edition = "2021"
publish = false

[dependencies]
anyhow = "1"
ethabi = "*"
ethers = { version = "2", default-features = false }
futures = "0.3"
graphql-parser = "*"
hex = "0.4"
secp256k1 = "*"
serde = { version = "1", features = ["derive"] }
serde_yaml = "*"
structopt = "0.3"
tiny-cid = "*"
tokio = { version = "1", features = ["macros", "rt-multi-thread", "time"] }
url = "2"
wasmparser = "*"

[package]
name = "prover_client"
version = "0.1.0"
edition = "2021"
publish = false

[dependencies]
anyhow = "=1.0.104"
clap = { version = "=4.6.7", features = ["derive"] }
crossterm = "=0.29.0"
log = "=0.4.34"
machineid-rs = "=1.2.4"
num_cpus = "=1.17.0"
procfs = "=0.18.0"
rand = "=0.8.8"
rayon = "=1.12.0"
rustacuda = "=0.1.3"
serde = { version = "=1.0.229", features = ["derive"] }
snarkvm-console = "=0.9.16"
snarkvm-console-account = "=0.9.16"
snarkvm-synthesizer = { version = "=0.9.16", features = ["setup"] }
tokio = { version = "=1.54.1", features = ["full"] }
tokio-rayon = "=2.1.0"
tracing-subscriber = { version = "=0.3.23", features = ["env-filter"] }
uname = "=0.1.1"

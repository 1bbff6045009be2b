[package]
name = "nextest_runner"
version = "0.1.0"
edition = "2021"
publish = false

[dependencies]
camino = "=1.2.6"
cargo_metadata = "=0.14.2"
crossbeam-channel = "=0.5.17"
ctrlc = { version = "=3.5.2", features = ["termination"] }
duct = "=0.13.7"
guppy = "=0.13.0"
indent_write = "=2.2.0"
nextest-metadata = "=0.2.1"
once_cell = "=1.21.4"
owo-colors = "=3.5.0"
serde_json = "=1.0.154"

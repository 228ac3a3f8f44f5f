[package]
name = "crabfish"
version = "0.1.0"
edition = "2021"
publish = false

[dependencies]
chess = "=3.2.0"
rustc-hash = "=1.1.0"
smallvec = "=1.16.4"
crossbeam = "=0.8.5"
clap = { version = "=4.6.7", features = ["derive"] }

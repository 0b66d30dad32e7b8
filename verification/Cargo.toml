[package]
name = "grpc_propagation"
version = "0.1.0"
edition = "2021"
publish = false

[dependencies]
tonic = "0.9"
hyper = "0.14"
tower = { version = "0.4", features = ["timeout"] }
tokio = { version = "1", features = ["macros", "rt-multi-thread"] }
clap = { version = "4", features = ["derive"] }
prost = "0.11"

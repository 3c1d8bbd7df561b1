[package]
name = "ignition_column"
version = "0.1.0"
edition = "2021"
publish = false

[dependencies]
arrow-array = "=60.1.0"
arrow-buffer = "=60.1.0"
arrow-data = "=60.1.0"
arrow-schema = "=60.1.0"
arrow-select = "=60.1.0"
bytes = "=1.12.1"
rustix = { version = "=0.38.44", features = ["fs"] }
thrift = { version = "=0.17.0", default-features = false }
tracing = "=0.1.44"

[package]
name = "otlp_codec"
version = "0.1.0"
edition = "2021"
publish = false

[dependencies]
url = "2"
quick-protobuf = "0.8"
combine = "4"
thiserror = "1"

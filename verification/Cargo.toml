[package]
name = "proto_builder"
version = "0.1.0"
edition = "2021"
publish = false

[dependencies]
protoc = "*"
protoc-bin-vendored = "*"
protoc-grpcio = "*"

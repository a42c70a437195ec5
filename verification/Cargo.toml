[package]
name = "pooled_writer"
version = "0.1.0"
edition = "2021"
publish = false

[dependencies]
bgzf = "*"
flume = "*"
parking_lot = "*"
thiserror = "*"

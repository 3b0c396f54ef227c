[package]
name = "udf_binding"
version = "0.1.0"
edition = "2021"
publish = false

[dependencies]
anyhow = "1"
arrow-array = "*"
arrow-schema = "*"
base64 = "0.21"
itertools = "0.12"
proc-macro2 = "1"
quote = "1"
rquickjs = "0.4"
syn = "2"

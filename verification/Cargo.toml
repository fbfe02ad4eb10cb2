[package]
name = "intan_importer"
version = "0.1.0"
edition = "2021"
publish = false

[dependencies]
byteorder = "1"
ndarray = "0.16"

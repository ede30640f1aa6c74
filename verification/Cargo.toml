[package]
name = "blobcache"
version = "0.1.0"
edition = "2021"
publish = false

[dependencies]
nydus-utils = "=0.3.2"

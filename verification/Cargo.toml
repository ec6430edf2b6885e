[package]
name = "csw_circuit"
version = "0.1.0"
edition = "2021"
publish = false

[dependencies]
num-bigint = "0.4"
blake2s_simd = "1.0"
sha2 = "0.10"

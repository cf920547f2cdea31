[package]
name = "sim_run_core"
version = "0.1.0"
edition = "2021"
publish = false

[dependencies]
sha2 = "=0.10.9"
sim-lib-net-http = "=0.2.0"
sim-kernel = "=0.4.0"
sim-config = "=0.3.0"

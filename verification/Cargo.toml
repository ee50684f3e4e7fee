[package]
name = "rs-lc-3-vm"
version = "0.2.3"
edition = "2021"
publish = false

[dependencies]
clap = "=4.6.7"
thiserror = "=2.0.21"

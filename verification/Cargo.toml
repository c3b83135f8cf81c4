[package]
name = "msp_gps_toy"
version = "0.2.0"
edition = "2021"
publish = false

[dependencies]
chrono = "0.4"
getopts = "0.2"
rand = "0.8"
serial2 = "0.2"

[package]
name = "mail_types"
version = "0.1.0"
edition = "2021"
publish = false

[dependencies]
quoted_printable = "0.4"
base64 = "0.9"
mime = "0.3"
rand = "0.7"
chrono = "0.4"
futures = "0.1"
futures-cpupool = "0.1"

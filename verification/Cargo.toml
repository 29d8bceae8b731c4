[package]
name = "browser_engine"
version = "0.1.0"
edition = "2021"
publish = false

[dependencies]
flate2 = "1.0"
rustls = "0.19"
webpki = "0.21"
webpki-roots = "0.21"
druid = "0.7"
clap = "2.33"

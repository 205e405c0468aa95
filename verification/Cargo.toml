[package]
name = "alistral"
version = "0.1.0"
edition = "2021"
publish = false

[dependencies]
rand = "=0.8.8"
chrono = "=0.4.45"
color-eyre = "=0.6.5"
clap = { version = "=4.6.7", features = ["derive"] }
tokio = { version = "=1.54.1", features = ["rt-multi-thread", "macros"] }
futures = "=0.3.34"
async-fn-stream = "=0.3.2"
musicbrainz_rs = { version = "=0.14.0", features = ["async", "native_tls"] }
listenbrainz = "=0.8.1"

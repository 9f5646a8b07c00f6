[package]
name = "tempmonitor"
version = "0.1.0"
edition = "2021"
publish = false

[dependencies]
sqlite = "=0.37.4"
rustc-serialize = "=0.3.25"
chrono = "=0.4.45"
docopt = "=1.1.1"
hyper = { version = "=1.12.0", features = ["client", "http1"] }
hyper-util = { version = "=0.1.21", features = ["client-legacy", "http1", "tokio"] }
http-body-util = "=0.1.5"
tokio = { version = "=1.53.2", features = ["rt", "net", "time"] }

[package]
name = "omni_terminal"
version = "0.1.0"
edition = "2021"
publish = false

[dependencies]
uuid = { version = "*", features = ["v4"] }
serde_json = "*"
tokio = { version = "*", features = ["sync", "rt-multi-thread", "macros", "net", "time"] }
axum = { version = "*", features = ["ws"] }
tower-http = { version = "*", features = ["fs"] }
tokio-rustls = { version = "*", default-features = false, features = ["ring", "tls12"] }
rustls = { version = "*", default-features = false, features = ["ring", "std", "tls12", "logging"] }
rustls-pemfile = "*"
rcgen = { version = "*", default-features = false, features = ["pem", "ring"] }
libc = "*"
teletypewriter = "*"

[package]
name = "prompt_core"
version = "0.1.0"
edition = "2021"
publish = false

[dependencies]
anyhow = "=1.0.104"
clap = "=4.6.7"
futures = "=0.3.34"
homedir = "=0.3.6"
inquire = "=0.9.4"
llrt_modules = { version = "=0.8.1-beta", default-features = false, features = ["abort", "buffer", "child-process", "crypto", "crypto-ring", "events", "fs", "https", "navigator", "os", "path", "process", "timers", "tls-ring", "url"] }
llrt_fetch = { version = "=0.8.1-beta", default-features = false, features = ["http1", "http2", "compression-rust", "webpki-roots", "tls-ring"] }
loading = "=0.4.0"
regex = "=1.13.1"
rquickjs = { version = "=0.11.0", features = ["full-async"] }
serde = { version = "=1.0.229", features = ["derive"] }
serde_yml = "=0.0.13"
tokio = { version = "=1.54.1", features = ["full"] }

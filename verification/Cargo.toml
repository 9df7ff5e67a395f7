[package]
name = "offsite_replication"
version = "0.1.0"
edition = "2021"
publish = false

[dependencies]
anyhow = "=1.0.104"
gloo-timers = "=0.3.0"
http = "=1.5.0"
log = "=0.4.35"
nix = { version = "=0.29.0", features = ["fs"] }
openssl = "=0.10.82"
serde = { version = "=1.0.229", features = ["derive"] }
serde_json = "=1.0.154"
web-sys = { version = "=0.3.107", features = ["HtmlInputElement", "HtmlSelectElement"] }
yew = { version = "=0.21.0", features = ["csr"] }

[package]
name = "ngx-http-altcha-module"
version = "0.1.0"
edition = "2021"
publish = false

[dependencies]
altcha = "=0.2.0"
base64 = "=0.22.1"
duration-str = "=0.21.0"
nginx-sys = "=0.5.0"
ngx = { version = "=0.5.1", features = ["vendored"] }
serde_json = "=1.0.154"

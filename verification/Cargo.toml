[package]
name = "mykvm_core"
version = "0.1.0"
edition = "2021"
publish = false

[dependencies]
ring = "=0.17.14"
serde = { version = "=1.0.229", features = ["derive"] }
serde_json = "=1.0.154"
rmp-serde = "=1.3.1"
log = "=0.4.35"
jni = "=0.21.1"
android_logger = "=0.15.1"
if-addrs = "=0.15.0"
socket2 = { version = "=0.5.10", features = ["all"] }
x11rb = { version = "=0.13.2", features = ["xtest", "xfixes"] }

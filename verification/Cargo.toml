[package]
name = "enamel-gtk"
version = "0.1.0"
edition = "2021"
publish = false

[dependencies]
bincode = "=1.3.3"
serde = { version = "=1.0.229", features = ["derive"] }
serde_derive = "=1.0.229"
gio = "=0.16.7"
glib = "=0.16.9"
gtk = "=0.16.2"
webkit2gtk-webextension = "=0.16.0"
capnp = "=0.27.3"
capnp-rpc = "=0.27.3"
async-std = "=1.13.2"
futures = "=0.3.34"
env_logger = "=0.11.11"
log = "=0.4.35"

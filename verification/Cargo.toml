[package]
name = "usb_transfer"
version = "0.1.0"
edition = "2021"
publish = false

[dependencies]
anyhow = "=1.0.104"
futures = { version = "=0.3.34", default-features = false }
log = "=0.4.35"
mbarrier = "=0.1.3"
xhci = "=0.9.2"

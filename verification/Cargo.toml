[package]
name = "bulletty_feed"
version = "0.1.0"
edition = "2021"
publish = false

[dependencies]
chrono = "=0.4.45"
color-eyre = "=0.6.5"
html2md-bulletty = "=0.2.16"
html5ever = "=0.27.0"
markup5ever_rcdom = "=0.3.0"
regex = "=1.13.1"
reqwest = { version = "=0.12.28", features = ["blocking"] }
roxmltree = "=0.21.1"
slug = "=0.1.6"
tl = "=0.7.8"
tracing = "=0.1.44"
url = "=2.5.8"

[package]
name = "mdbook_graphviz"
version = "0.1.0"
edition = "2021"
publish = false

[dependencies]
pulldown-cmark = "=0.13.4"
pulldown-cmark-to-cmark = "=23.0.0"
mdbook = { version = "=0.4.52", default-features = false }
tokio = { version = "=1.53.2", features = ["rt-multi-thread", "process", "io-util", "time", "macros"] }
futures-util = "=0.3.34"

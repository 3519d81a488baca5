[package]
name = "cf-speedtest-core"
version = "0.1.0"
edition = "2021"
publish = false

[dependencies]
memchr = "=2.8.3"
fluent-uri = "0.3"
axum = "=0.8.9"
tokio = { version = "=1.54.1", features = ["macros", "rt-multi-thread", "net", "signal"] }
bytes = "=1.12.1"
log = "=0.4.35"
logforth = { version = "=0.30.1", features = ["append-fastrace", "bridge-log", "layout-text", "filter-rustlog"] }
fastrace = "=0.7.19"
fastrace-axum = "=0.2.0"
foldhash = "*"

[dev-dependencies]
ruzstd = "=0.9.1"

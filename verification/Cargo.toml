[package]
name = "tracing_bunyan_formatter"
version = "0.1.0"
edition = "2021"
publish = false

[dependencies]
ahash = "0.8"
gethostname = "0.4"
log = "0.4"
serde_json = "1"
time = { version = "0.3", default-features = false, features = ["formatting", "parsing"] }
tracing = { version = "0.1", default-features = false, features = ["log", "std"] }
tracing-core = "0.1"
tracing-log = "0.2"
tracing-subscriber = { version = "0.3", default-features = false, features = ["registry", "fmt"] }

[package]
name = "artemis"
version = "0.1.0"
edition = "2021"
publish = false

[dependencies]
strip-ansi-escapes = "=0.2.1"
nu-ansi-term = "=0.50.3"
convert_case = "=0.12.0"
console = "=0.16.6"
anyhow = "=1.0.104"
async-trait = "=0.1.92"
tokio = { version = "=1.54.1", features = ["process", "io-util", "sync", "rt", "rt-multi-thread", "macros", "time"] }
colored = "=3.1.1"
dirs = "=7.0.0"
dotenvy = "=0.15.7"
tempfile = "=3.27.0"
tracing = "=0.1.44"
futures = "=0.3.34"
derive_setters = "=0.1.9"
config = { version = "=0.15.27", default-features = false, features = ["toml"] }
reedline = { version = "=0.52.1", default-features = false }
gix = { version = "=0.90.0", default-features = false, features = ["sha1"] }

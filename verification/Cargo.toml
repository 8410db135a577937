[package]
name = "zmake_lib"
version = "0.1.0"
edition = "2021"
publish = false

[dependencies]
ahash = "=0.8.12"
smallvec = "=1.16.4"
hex = "=0.4.3"
sha2 = "=0.11.1"
semver = "=1.0.28"
lenient_semver = "=0.4.2"
thiserror = "=2.0.21"
serde = { version = "=1.0.229", features = ["derive"] }
clap = { version = "=4.6.7", features = ["derive"] }
clap_complete = "=4.6.11"
eyre = "=0.6.14"
color-eyre = "=0.6.5"
tracing = "=0.1.44"
tracing-subscriber = "=0.3.23"
tokio = { version = "=1.54.1", features = ["rt-multi-thread", "fs", "io-util", "sync", "macros"] }
tokio-stream = "=0.1.19"
tokio-util = { version = "=0.7.20", features = ["io"] }
async-trait = "=0.1.92"
async-stream = "=0.3.6"
futures = "=0.3.34"
dashmap = "=6.2.1"
bytes = "=1.12.1"
tonic = "=0.14.6"
uuid = { version = "=1.29.0", features = ["v4"] }
num_cpus = "=1.17.0"
argfile = "=1.0.0"
exit-code = "=1.0.0"
strum = { version = "=0.28.0", features = ["derive"] }
oxc = { version = "=0.141.0", features = ["transformer", "semantic", "codegen"] }
v8 = "=152.2.0"

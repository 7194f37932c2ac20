[package]
name = "filewatcher_exporter"
version = "0.1.0"
edition = "2021"
publish = false

[dependencies]
prometheus_exporter_base = "=0.30.4"
sysinfo = "=0.9.6"
gethostname = "=0.2.3"
clap = "=2.34.0"
env_logger = "=0.7.1"
log = "=0.4.34"
failure = "=0.1.8"
tokio = { version = "=0.2.25", features = ["macros", "rt-threaded"] }

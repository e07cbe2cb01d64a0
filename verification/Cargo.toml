[package]
name = "spark_collect_plugin"
version = "0.3.0"
edition = "2021"
publish = false

[dependencies]
rmpv = "1"
java-properties = "2"
lazy_static = "1"
log = "0.4"
ureq = "2"
widestring = "1"

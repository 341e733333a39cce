[package]
name = "access_filter"
version = "0.1.0"
edition = "2021"
publish = false

[dependencies]
regex = "=1.13.1"
time = { version = "=0.3.55", features = ["formatting"] }
human-repr = "=1.1.0"
myhumantime = "=1.0.0"
log = "=0.4.34"
actix-web = { version = "4", default-features = false }
actix-service = "2"
actix-utils = "3"
pin-project-lite = "0.2"
bytes = "1"
futures-core = "0.3"

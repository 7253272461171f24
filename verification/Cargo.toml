[package]
name = "substrate-archive"
version = "0.1.0"
edition = "2021"
publish = false

[dependencies]
async-trait = "0.1"
chrono = { version = "0.4", default-features = false, features = ["clock", "std"] }
dirs = "*"
fern = { version = "*", features = ["colored"] }
futures = "0.3"
hex = "0.4"
log = "0.4"
parity-scale-codec = { version = "3", default-features = false, features = ["std"] }
sp-runtime = { version = "*", default-features = false }
sqlx = { version = "0.8", default-features = false, features = ["postgres", "runtime-tokio", "chrono", "json"] }
tokio = { version = "1", features = ["rt-multi-thread", "sync", "time"] }
url = "2"

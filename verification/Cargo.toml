[package]
name = "rstml"
version = "0.10.6"
edition = "2021"
publish = false

[dependencies]
proc-macro2 = { version = "1", features = ["span-locations"] }
syn = { version = "2", features = ["full", "parsing", "extra-traits"] }
quote = "1"
proc-macro2-diagnostics = { version = "0.10", default-features = false }
thiserror = "1"

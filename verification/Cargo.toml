[package]
name = "savon"
version = "0.2.0"
edition = "2021"
publish = false

[dependencies]
xmltree = { version = "0.10", features = ["attribute-order"] }
case = "1"
proc-macro2 = "1"
syn = { version = "2", features = ["full"] }
prettyplease = "0.2"
quote = "1"
anyhow = "1"
clap = { version = "4", features = ["derive"] }
env_logger = "*"
chrono = "0.4"
reqwest = { version = "0.11", default-features = false }

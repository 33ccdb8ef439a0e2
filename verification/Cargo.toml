[package]
name = "sylvia_derive"
version = "0.1.0"
edition = "2021"
publish = false

[dependencies]
convert_case = "0.6"
cosmwasm-std = "1.5"
proc-macro2 = "1"
proc-macro-error = "1"
quote = "1"
syn = { version = "1", features = ["full", "fold", "visit", "extra-traits"] }

[dev-dependencies]
serde_json = "1"

[package]
name = "crucible_idl_gen"
version = "0.1.0"
edition = "2021"
publish = false

[dependencies]
proc-macro2 = "1"
quote = "1"
anchor-lang-idl = { version = "0.1", default-features = false }

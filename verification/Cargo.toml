[package]
name = "quasiquodo"
version = "0.1.0"
edition = "2021"
publish = false

[dependencies]
unicode-ident = "=1.0.27"
swc_common = "=27.0.0"
swc_ecma_ast = "=30.0.0"
swc_ecma_parser = { version = "=47.0.0", features = ["unstable"] }
swc_atoms = "=10.0.0"
swc_ecma_utils = "=36.0.0"
num-bigint = "=0.4.8"
syn = { version = "=2.0.119", features = ["full", "extra-traits"] }
quote = "=1.0.47"
proc-macro2 = "=1.0.107"
thiserror = "=2.0.21"
unindent = "=0.2.4"

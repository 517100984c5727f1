[package]
name = "rslint_runner"
version = "0.1.0"
edition = "2021"
publish = false

[dependencies]
codespan-reporting = "=0.9.5"
rayon = "=1.12.0"
regex = "=1.13.1"
rslint_core = "=0.3.0"
rslint_lexer = { version = "=0.1.3", features = ["highlight"] }
termcolor = "=1.4.1"

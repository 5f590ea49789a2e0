[package]
name = "descent_parser"
version = "0.1.0"
edition = "2021"
publish = false

[dependencies]
codespan = "=0.3.0"
lazy_static = "=1.5.1"
logos = "=0.12.1"
string-interner = "=0.7.1"

[package]
name = "backtrace_rust"
version = "0.1.0"
edition = "2021"
publish = false

[dependencies]
addr2line = "0.11"
gimli = "0.20"
object = "0.17"
rustc-demangle = "0.1"
memmap = "0.7"

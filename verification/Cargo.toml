[package]
name = "code_lines"
version = "0.1.0"
edition = "2021"
publish = false

[dependencies]
clap = "3"
term_size = "0.3"
walkdir = "2"

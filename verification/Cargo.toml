[package]
name = "terminal_input"
version = "0.1.0"
edition = "2021"
publish = false

[dependencies]
ncurses = { version = "=5.98.0", features = ["wide"] }
const-cstr = "=0.3.0"

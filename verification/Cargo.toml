[package]
name = "debounce_fltk"
version = "0.1.0"
edition = "2021"
publish = false

[dependencies]
fltk = "1"
once_cell = "1"
parking_lot = "0.12"
tokio = { version = "1", features = ["rt", "rt-multi-thread", "time", "macros", "sync"] }

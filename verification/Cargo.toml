[package]
name = "move_function_analyzer"
version = "0.1.0"
edition = "2021"
publish = false

[dependencies]
hex = "=0.4.3"
serde = { version = "1", features = ["derive"] }
serde_json = "1"
clap = "4"
thiserror = "1"
walkdir = "2"
log = "0.4"
move-compiler = "0.0.0"
move-core-types = "0.0.3"

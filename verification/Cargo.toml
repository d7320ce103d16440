[package]
name = "meetily_engine"
version = "0.1.0"
edition = "2021"
publish = false

[dependencies]
anyhow = "1"
hound = "3"
serde = { version = "1", features = ["derive"] }
whisper-rs = "0.16"
llama-cpp-2 = "0.1.150"

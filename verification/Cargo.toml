[package]
name = "audio_combiner"
version = "0.1.0"
edition = "2021"
publish = false

[dependencies]
symphonia = { version = "=0.5.5", default-features = false, features = ["mp3", "ogg", "vorbis", "wav", "pcm"] }
wasm-bindgen = "=0.2.129"

[package]
name = "uiua_embed"
version = "0.1.0"
edition = "2021"
publish = false

[dependencies]
uiua = { version = "=0.14.1", default-features = false, features = ["image", "gif", "audio_encode"] }
image = { version = "0.24", default-features = false, features = ["png"] }
neon = "1.0"

[package]
name = "daw_modules"
version = "0.1.0"
edition = "2021"
publish = false

[dependencies]
anyhow = "*"
biquad = "*"
cpal = "*"
hound = "*"
ringbuf = "*"
rubato = "*"
serde = { version = "*", features = ["derive"] }
serde_json = "*"
symphonia = "*"

[package]
name = "neso_gui"
version = "0.1.0"
edition = "2021"
publish = false

[dependencies]
clap = "2"
log = "0.4"
neso = "*"
sdl2 = "0.31"
serde = { version = "1", features = ["derive"] }
simplelog = "0.5"
toml = "0.4"

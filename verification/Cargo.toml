[package]
name = "http_lib"
version = "0.1.0"
edition = "2021"
publish = false

[dependencies]
bytes = "1"
httpdate = "1"
log = "0.4"
pico-args = "0.5"
simplelog = "0.12"
handlebars = "*"
mime_guess = "2"
serde = { version = "1", features = ["derive"] }

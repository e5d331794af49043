[package]
name = "iron_vault"
version = "0.1.0"
edition = "2021"
publish = false

[dependencies]
aes-gcm = "=0.10.3"
argon2 = "=0.5.3"
hex = "=0.4.3"
rand = "=0.9.5"
serde = { version = "=1.0.229", features = ["derive"] }
serde_json = "=1.0.154"
rpassword = "=7.5.4"
rustyline = "=19.0.0"
cli-clipboard = "=0.4.0"

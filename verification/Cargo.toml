[package]
name = "xzcrypt"
version = "0.1.0"
edition = "2021"
publish = false

[dependencies]
argon2 = "0.5"
chacha20 = { version = "0.9", features = ["zeroize"] }
clap = { version = "4", features = ["derive"] }
liblzma = { version = "*", features = ["parallel"] }
num_cpus = "1"
rand_chacha = "0.3"
rand_core = { version = "0.6", features = ["getrandom"] }
rpassword = "7"
zeroize = "1"

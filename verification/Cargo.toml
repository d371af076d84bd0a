[package]
name = "hey_chat_gpt"
version = "0.1.0"
edition = "2021"
publish = false

[dependencies]
reqwest = { version = "*", default-features = false, features = ["blocking"] }
syn = "*"
proc-macro2 = { version = "*", features = ["span-locations"] }
quote = "*"

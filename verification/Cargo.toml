[package]
name = "f4-w25q"
version = "0.1.0"
edition = "2021"
publish = false

[dependencies]
stm32f4xx-hal = { version = "*", features = ["stm32f412"] }
embedded-storage-async = "*"
littlefs2 = "0.4"
typenum = "1"

[package]
name = "modbus_rs"
version = "0.1.0"
edition = "2021"
publish = false

[dependencies]
bbqueue = "=0.5.1"
crc16 = "=0.4.0"
futures = { version = "=0.3.34", default-features = false }

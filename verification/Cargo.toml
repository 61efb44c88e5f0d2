[package]
name = "ide_cmm"
version = "0.1.0"
edition = "2021"
publish = false

[dependencies]
gtk4 = "0.7"
sourceview5 = "0.7"
winreg = "0.52"

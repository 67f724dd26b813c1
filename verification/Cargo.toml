[package]
name = "riscv_iss"
version = "0.1.0"
edition = "2021"
publish = false

[dependencies]
enumn = "*"
goblin = "*"
strum = "*"
strum_macros = "*"

[package]
name = "quer"
version = "0.1.0"
edition = "2021"
publish = false

[dependencies]
regex = "1"
memmap2 = "*"
walkdir = "2"
concurrent-queue = "*"
work-queue = "*"
json = "*"

[package]
name = "installer_package"
version = "0.1.0"
edition = "2021"
publish = false

[dependencies]
flate2 = "1"
tar = "0.4"
threadpool = "1"
walkdir = "2"
xz2 = "0.1"

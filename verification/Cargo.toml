[package]
name = "printpdf"
version = "0.1.0"
edition = "2021"
publish = false

[dependencies]
lopdf = { version = "0.26", default-features = false, features = ["pom_parser"] }
rusttype = "0.8"
time = "0.2"
image = { version = "0.23", default-features = false }

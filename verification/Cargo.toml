[package]
name = "mxml_transpiler"
version = "0.1.0"
edition = "2021"
publish = false

[dependencies]
as3_parser = "*"
xml-rs = "0.8"

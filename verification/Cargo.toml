[package]
name = "tnviewer"
version = "0.1.0"
edition = "2021"
publish = false

[dependencies]
xmlparser = "0.13"
serde = "1"
serde_derive = "1"
serde_json = "1"
chardetng = "0.1"

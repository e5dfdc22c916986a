[package]
name = "brimstone"
version = "0.1.0"
edition = "2021"
publish = false

[dependencies]
anyhow = "1"
color-eyre = "0.6"
colored = "*"
ctrlc = "3"
device_query = "*"
inquire = "*"
rand = "0.8"
select = "0.6"
serde = { version = "1", features = ["derive"] }
serde-xml-rs = "*"
toml = "*"
ureq = "2"

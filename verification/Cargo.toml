[package]
name = "arc_automation"
version = "0.1.0"
edition = "2021"
publish = false

[dependencies]
clap = { version = "4", features = ["derive"] }
colored = "*"
dotenvy = "*"
indexmap = "2"
jiff = "*"
mlua = { version = "*", features = ["lua54", "vendored", "serialize"] }
serde = { version = "1", features = ["derive"] }
serde_json = "1"
serde_qs = "*"
serde_yaml = "*"
ssh2 = "*"
tabled = "*"
tera = "1"
thiserror = "*"
toml = "*"

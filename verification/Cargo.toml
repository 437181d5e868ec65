[package]
name = "nm_openvpn_sso"
version = "0.1.0"
edition = "2021"
publish = false

[dependencies]
clap = { version = "4", features = ["derive"] }
gtk4 = "*"
libadwaita = { version = "*", features = ["v1_4"] }
serde = { version = "1", features = ["derive"] }
zbus = "*"

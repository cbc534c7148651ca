[package]
name = "port_manager"
version = "0.1.0"
edition = "2021"
publish = false

[dependencies]
serde = { version = "1", features = ["derive"] }
serde_json = "1"
procfs = "0.17"
netstat2 = "*"
ratatui = "0.26"
crossterm = "0.27"
nix = { version = "0.27", features = ["signal", "process"] }
actix-web = { version = "4", default-features = false, features = ["macros"] }
actix-web-lab = "*"
actix-web-prom = "*"
prometheus = "*"
lazy_static = "1"

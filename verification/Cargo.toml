[package]
name = "gitt"
version = "0.1.0"
edition = "2021"
publish = false

[dependencies]
cassowary = "0.3"
chrono = "0.4"
clap = "3"
crossterm = "0.25"
git2 = { version = "0.15", default-features = false }
tui = "0.19"

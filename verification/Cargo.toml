[package]
name = "home_keeper"
version = "0.1.0"
edition = "2021"
publish = false

[dependencies]
gio = "*"
glib = "*"
slog = "2"
slog-term = "2"

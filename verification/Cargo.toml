[package]
name = "super_v"
version = "0.1.0"
edition = "2021"
publish = false

[dependencies]
emojis = "0.6"
arboard = "3"
clap = { version = "4", features = ["derive"] }
ctrlc = "3"
fs2 = "0.4"
gtk4 = "0.9"
gdk-pixbuf = "0.20"
rmp-serde = "1"
serde = { version = "1", features = ["derive"] }
termion = "4"

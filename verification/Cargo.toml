[package]
name = "imessage_undeleter"
version = "0.1.0"
edition = "2021"
publish = false

[dependencies]
plist = "*"
sha1 = "*"
rusqlite = { version = "*", features = ["bundled", "blob"] }
chrono = "*"
clap = "*"
crabapple = "*"
filetime = "*"

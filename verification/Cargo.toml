[package]
name = "music_organizer"
version = "0.1.0"
edition = "2021"
publish = false

[dependencies]
clap = "=3.0.14"
clap_generate = "=3.0.3"
id3 = "*"
mp4ameta = "*"
shellexpand = "*"
walkdir = "2"

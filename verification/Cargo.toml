[package]
name = "cacophony_audio"
version = "0.1.0"
edition = "2021"
publish = false

[dependencies]
oxisynth = "=0.0.5"
hashbrown = "=0.17.1"
hound = "=3.5.1"
parking_lot = "=0.13.0"
ghakuf = "=0.5.6"
id3 = "=1.17.2"
chrono = "=0.4.45"
mp3lame-encoder = "=0.2.5"
vorbis-encoder = "=0.1.4"
oggvorbismeta = "=0.2.0"

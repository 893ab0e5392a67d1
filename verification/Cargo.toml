[package]
name = "imagetool"
version = "0.1.0"
edition = "2021"
publish = false

[dependencies]
image = "0.21"
num-complex = "0.2"
clap = "2.33"

[package]
name = "galaxy_md"
version = "0.3.0"
edition = "2021"
publish = false

[dependencies]
pulldown-cmark = "*"
notify = "*"
open = "*"

[package]
name = "vanity_search"
version = "0.1.0"
edition = "2021"
publish = false

[dependencies]
atty = "0.2"
concread = "*"
rand = "*"
rayon = "1"
sp-core = "*"
structopt = "0.3"

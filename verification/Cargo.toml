[package]
name = "boundbook"
version = "0.1.0"
edition = "2021"
publish = false

[dependencies]
xxhash-rust = { version = "=0.8.19", features = ["xxh3"] }
hashbrown = "=0.17.1"
alphanumeric-sort = "=1.5.8"
memmap2 = "=0.9.12"
rayon = "=1.12.0"
clap = { version = "=4.6.7", features = ["derive"] }
clap_complete = "=4.6.11"
clap_complete_nushell = "=4.6.2"
clap_complete_fig = "=4.5.2"
clap_complete_clink = "=1.0.0"
clap-help = "*"
clap-markdown = "*"
termimad = "*"
thiserror = "=2.0.21"
zip = "=9.1.0"
indicatif = "=0.18.6"
serde = { version = "=1.0.229", features = ["derive"] }
toml = "=1.1.8"
dirs = "=7.0.0"
lerp = "*"
nalgebra = "*"

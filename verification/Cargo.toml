[package]
name = "lu_mod_tool"
version = "0.1.0"
edition = "2021"
publish = false

[dependencies]
sfhash = "=0.1.1"
assembly-fdb = { version = "=0.1.0", features = ["store"] }
color-eyre = "=0.6.5"
mapr = "=0.8.0"
quick-xml = { version = "=0.42.0", features = ["serialize"] }
rusqlite = "=0.40.2"
serde = { version = "=1.0.229", features = ["derive"] }
serde_json = "=1.0.154"
structopt = "=0.3.26"

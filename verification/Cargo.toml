[package]
name = "rubrica"
version = "0.1.0"
edition = "2021"
publish = false

[dependencies]
base64 = "0.22"
hex = "0.4"
sha2 = "0.10"
rsa = { version = "0.9", features = ["sha2"] }
der = { version = "0.7", features = ["alloc", "oid", "derive"] }
x509-cert = "0.2"
const-oid = { version = "0.9", features = ["db"] }
spki = "0.7"
cms = { version = "0.2", features = ["builder"] }
p12 = "0.6"
p12-keystore = "*"
minreq = { version = "2", features = ["https"] }
tungstenite = "0.21"
tiny_http = "0.12"
clap = { version = "4", features = ["derive"] }
anyhow = "1"
thiserror = "1"

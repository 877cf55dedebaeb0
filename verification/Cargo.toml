[package]
name = "x509_parser"
version = "0.1.0"
edition = "2021"
publish = false

[dependencies]
data-encoding = "=2.11.1"
der-parser = { version = "=5.1.2", features = ["bigint"] }
nom = "=6.2.2"
num-bigint = "=0.4.8"
oid-registry = { version = "=0.1.5", features = ["crypto", "x509"] }
ring = "=0.16.20"
rusticata-macros = "=3.2.0"

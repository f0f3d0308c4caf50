[package]
name = "pkcs11_keys"
version = "0.1.0"
edition = "2021"
publish = false

[dependencies]
rand = "*"
pkcs11 = "*"

[dev-dependencies]
picky-asn1 = "*"
picky-asn1-der = "*"
picky-asn1-x509 = "*"

[package]
name = "qmsg_core"
version = "0.1.0"
edition = "2021"
publish = false

[dependencies]
openmls = "0.4"
tls_codec = "0.2"

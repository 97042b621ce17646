[package]
name = "request_response_tunnel"
version = "0.1.0"
edition = "2021"
publish = false

[dependencies]
iceoryx2 = "=0.9.3"
iceoryx2-log = "=0.9.3"
zenoh = { version = "=1.10.2", default-features = false, features = ["unstable"] }

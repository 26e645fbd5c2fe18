[package]
name = "trimrouter"
version = "0.1.0"
edition = "2021"
publish = false

[dependencies]
caps = "*"
chrono = "0.4"
dhcproto = "*"
dns-parser = "0.8"
futures-util = "0.3"
ipnet = "2"
libc = "0.2"
log = "0.4"
nix = { version = "*", features = ["fs", "mount", "reboot", "process", "signal", "socket", "time", "uio", "user"] }
pnet = "*"
postcard = { version = "1", features = ["use-std"] }
rand = "*"
rtnetlink = "*"
seccompiler = { version = "*", features = ["json"] }
serde = { version = "1", features = ["derive"] }
sntpc = "*"
socket2 = { version = "*", features = ["all"] }
tokio = { version = "1", features = ["full"] }

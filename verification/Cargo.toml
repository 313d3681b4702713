[package]
name = "ssamd"
version = "0.1.0"
edition = "2021"
publish = false

[dependencies]
anyhow = "1"
cgroups-rs = "*"
futures-util = "*"
hex = "0.4"
ipnet = "2"
linux-raw-sys = { version = "*", features = ["general", "ioctl", "loop_device"] }
log = "0.4"
loopdev-3 = "*"
netavark = "*"
netlink-packet-route = "*"
oci-spec = "*"
procfs = "*"
rsa = { version = "0.9", features = ["sha2"] }
rustix = { version = "1", features = ["fs", "mount", "thread", "process", "time", "net"] }
sd-notify = "*"
semver = "1"
serde = { version = "1", features = ["derive"] }
serde_json = "1"
tempfile = "3"
tokio = { version = "1", features = ["full"] }
tokio-util = "*"
toml = "*"
uuid = { version = "1", features = ["v4"] }
zbus = { version = "*", features = ["tokio"] }
zbus_systemd = { version = "*", features = ["systemd1"] }

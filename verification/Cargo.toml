[package]
name = "iongateway"
version = "0.1.0"
edition = "2021"
publish = false

[dependencies]
canparse = "=0.1.4"
serde = "*"
tokio = { version = "=1.53.2", features = ["full"] }
tokio-socketcan = "=0.3.1"
futures-util = "=0.3.34"
log = "=0.4.34"
log4rs = "=1.4.0"
dbus = "=0.9.12"
zbus = "=5.19.0"
zvariant = "=5.15.0"
rusty_network_manager = "=0.7.1"
spidev = "=0.7.1"
tokio-gpiod = "=0.3.0"

[package]
name = "iperf3-proto"
version = "0.1.0"
edition = "2021"
publish = false

[dependencies]
serde_json = "1"
embassy-executor = "*"
embassy-futures = "*"
embassy-net = { version = "*", features = ["tcp", "udp", "dhcpv4", "proto-ipv4", "medium-ethernet"] }
embassy-time = "*"
esp-alloc = "*"
esp-backtrace = "*"
esp-bootloader-esp-idf = "*"
esp-hal = "*"
esp-println = "*"
esp-radio = "*"
esp-rtos = "*"
static_cell = "*"

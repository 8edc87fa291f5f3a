[package]
name = "battery_report"
version = "0.1.0"
edition = "2021"
publish = false

[dependencies]
time = "0.3"
battery = "0.7"
ctrlc = "3"
once_cell = "1"
open = "3"
tray-item = "0.7"

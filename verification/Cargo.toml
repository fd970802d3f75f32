[package]
name = "chirp8_avr"
version = "0.1.0"
edition = "2021"
publish = false

[dependencies]
ruduino = "=0.3.2"
avr-config = { version = "=2.0.1", features = ["cpu-frequency"] }
avr-progmem = "=0.4.0"
avr-std-stub = "=1.0.3"

[package]
name = "embassy-st7789v-sprite"
version = "0.4.0"
edition = "2021"
publish = false

[dependencies]
embassy-st7789v = "0.6"
embedded-hal = "1.0"
embedded-hal-async = "1.0"

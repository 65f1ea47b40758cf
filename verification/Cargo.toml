[package]
name = "scroll_phat_hd"
version = "0.1.0"
edition = "2021"
publish = false

[dependencies]
i2cdev = "=0.6.2"
termion = "=4.0.6"

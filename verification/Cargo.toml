[package]
name = "dice_trials"
version = "0.1.0"
edition = "2021"
publish = false

[dependencies]
fastrand = "2"
num_cpus = "1"
indicatif = "*"

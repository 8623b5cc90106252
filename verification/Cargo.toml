[package]
name = "legalage_logic"
version = "0.1.0"
edition = "2021"
publish = false

[dependencies]
bellman_ce = "=0.3.5"
bs58 = "=0.5.1"
mimc-rs = "=0.0.2"
num-bigint = "=0.2.6"
rand = "=0.8.8"

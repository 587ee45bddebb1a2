[package]
name = "encrypted_transactions"
version = "0.1.0"
edition = "2021"
publish = false

[dependencies]
frame-support = "=3.0.0"
frame-system = "=3.0.0"
pallet-session = "=3.0.0"
parity-scale-codec = "=2.3.1"
sp-application-crypto = "=3.0.0"
sp-core = "=3.0.0"
sp-runtime = "=3.0.0"
sp-std = "=3.0.0"
# Held below the releases that sp-core and the frame macros do not build with.
substrate-bip39 = "=0.4.2"
syn = "=1.0.76"

[package]
name = "knights"
version = "0.1.0"
edition = "2021"
publish = false

[dependencies]
frame-support = "=3.0.0"
frame-system = "=3.0.0"
pallet-balances = "=3.0.0"
parity-scale-codec = { version = "=2.3.1", features = ["derive"] }
serde = { version = "=1.0.229", features = ["derive"] }
sp-io = "=3.0.0"
sp-runtime = "=3.0.0"
# Nothing here calls the next two. They hold dependencies of the crates above
# to the releases those were written for: later releases of substrate-bip39
# bring a second schnorrkel, with which sp-core does not compile, and later
# releases of syn 1 hide the module that frame-support's macros parse with.
substrate-bip39 = "=0.4.2"
syn = "=1.0.58"

[package]
name = "talpid_firewall"
version = "0.1.0"
edition = "2021"
publish = false

[dependencies]
dirs = "=2.0.2"
err-derive = "0.2"
ipnetwork = "=0.16.0"
libc = "=0.2.191"
log = "0.4"
mnl = "0.2"
nftnl = "0.3"
nix = "=0.17.0"
void = "1"

[package]
name = "vm2"
version = "0.1.0"
edition = "2021"
publish = false

[dependencies]
zk_evm_abstractions = "*"
zkevm_opcode_defs = "*"
arbitrary = "*"

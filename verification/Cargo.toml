[package]
name = "accursed_unutterable_type_id"
version = "0.1.0"
edition = "2021"
publish = false

[dependencies]
fslock = "*"
proc-macro2 = "*"
quote = "*"
syn = "*"

[package]
name = "child_by_source"
version = "0.1.0"
edition = "2021"
publish = false

[dependencies]
either = "1"
ra_ap_hir_expand = "<0.0.250"
ra_ap_syntax = "<0.0.250"

[package]
name = "rogue_tutorial"
version = "0.1.0"
edition = "2021"
publish = false

[dependencies]
rand = "=0.7.3"
specs = "=0.14.3"
specs-derive = "=0.4.1"
log = "=0.4.34"
ansi_term = "=0.12.1"
pretty_env_logger = "=0.4.0"
doryen-rs = "*"

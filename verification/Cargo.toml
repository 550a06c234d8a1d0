[package]
name = "larvae"
version = "0.1.0"
edition = "2021"
publish = false

[dependencies]
earlgrey = "*"
lexers = "*"
spfunc = "*"
float-pretty-print = "*"
rustyline = "*"
env_logger = "*"
log = "*"

[package]
name = "montyc"
version = "0.1.0"
edition = "2021"
publish = false

[dependencies]
ahash = "=0.8.12"
petgraph = "=0.6.5"
dashmap = "=5.5.3"
regex = "=1.13.1"
log = "=0.4.34"
env_logger = "=0.9.3"
structopt = "=0.3.26"
codespan-reporting = "=0.11.1"
thiserror = "=1.0.69"
logos = "=0.12.1"
cranelift-codegen = "=0.132.3"
cranelift-frontend = "=0.132.3"
cranelift-module = "=0.132.3"
cranelift-object = "=0.132.3"
target-lexicon = "0.13"
tempfile = "3"

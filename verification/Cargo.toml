[package]
name = "checkpoint-ts"
version = "0.1.0"
edition = "2021"
publish = false

[dependencies]
sha2 = "=0.10.9"
chrono = "=0.4.45"
serde = { version = "=1.0.229", features = ["derive"] }
serde_json = "=1.0.154"
shared_memory = "=0.12.4"
ratatui = "=0.30.2"
crossterm = { version = "=0.29.0", features = ["event-stream"] }
tokio = { version = "=1.54.1", features = ["full"] }
futures = "=0.3.34"
clap = { version = "=4.6.7", features = ["derive"] }
color-eyre = "=0.6.5"
dirs = "=6.0.0"
ignore = "=0.4.34"
ratatui-textarea = "=0.9.4"
throbber-widgets-tui = "=0.11.1"
thiserror = "=2.0.21"
swc_core = { version = "=46.0.3", features = ["ecma_ast", "ecma_parser", "ecma_codegen", "ecma_visit", "ecma_transforms_typescript", "common"] }

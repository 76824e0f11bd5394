[package]
name = "cli_agent_prompt"
version = "0.1.0"
edition = "2021"
publish = false

[dependencies]
dirs = "*"
log = "0.4"
pathfinder_color = "0.5"
regex = "1"
serde_json = "1"

[package]
name = "ratatui_tools"
version = "0.1.0"
edition = "2021"
publish = false

[dependencies]
ratatui = "*"
ratatui-core = "*"
ratatui-crossterm = "*"
ratatui-widgets = "*"

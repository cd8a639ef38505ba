[package]
name = "assay"
version = "0.1.0"
edition = "2021"
publish = false

[dependencies]
roxmltree = "0.20"
quick-xml = "0.36"
serde = { version = "1", features = ["derive"] }
serde_json = "1"
toml = "0.8"
clap = { version = "4", features = ["derive"] }
tungstenite = "0.21"
windows-sys = { version = "0.52", features = ["Win32_Foundation", "Win32_System_Diagnostics_ToolHelp", "Win32_System_ProcessStatus", "Win32_System_Threading"] }
winreg = "0.52"

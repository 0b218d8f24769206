[package]
name = "process_ownership"
version = "0.1.0"
edition = "2021"
publish = false

[dependencies]
uuid = { version = "1", features = ["v4"] }
serde = { version = "1", features = ["derive"] }
serde_json = "1"
schemars = "0.8"
ts-rs = "11"
tokio = { version = "1", features = ["sync"] }
winapi = { version = "0.3", features = ["minwindef", "ntdef", "handleapi", "processthreadsapi", "tlhelp32", "winbase", "winnt"] }

[dev-dependencies]
pretty_assertions = "1"

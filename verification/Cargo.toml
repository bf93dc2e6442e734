[package]
name = "timesheet_report"
version = "0.1.0"
edition = "2021"
publish = false

[dependencies]
chrono = "0.4"
chronoutil = "0.2"
dotenv = "0.15"
reqwest = { version = "0.11", features = ["json"] }
serde_json = "1"
tokio = { version = "1", features = ["macros", "rt-multi-thread"] }

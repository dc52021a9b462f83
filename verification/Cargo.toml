[package]
name = "sheet_table"
version = "0.1.0"
edition = "2021"
publish = false

[dependencies]
dotenv = "0.15"
google-sheets4 = "=5.0.5"
tokio = { version = "1", features = ["macros", "rt-multi-thread"] }

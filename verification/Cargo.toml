[package]
name = "toy_df"
version = "0.1.0"
edition = "2021"
publish = false

[dependencies]
arrow = { version = "=60.1.0", default-features = false }
arrow-schema = "=60.1.0"
datafusion = { version = "*", default-features = false }
tokio = { version = "*", features = ["macros", "rt-multi-thread"] }

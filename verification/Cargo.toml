[package]
name = "lesson_plan_xpress_backend"
version = "0.1.0"
edition = "2021"

[dependencies]
ic-stable-structures = "*"
ic-cdk = "*"
candid = "*"
serde = { version = "*", features = ["derive"] }

[package]
name = "student_tracker"
version = "2.0.0"
edition = "2021"
publish = false

[dependencies]
hyper = { version = "0.14", features = ["client", "http1", "tcp"] }
json = "0.12"
tokio = { version = "1", features = ["macros", "rt-multi-thread"] }

[package]
name = "brainworms"
version = "0.1.0"
edition = "2021"
publish = false

[dependencies]
log = "=0.4.34"
pretty_env_logger = "=0.5.0"
reqwest = { version = "=0.12.28", default-features = false }
sqlx = { version = "=0.8.6", default-features = false, features = ["postgres", "runtime-tokio", "derive"] }
takecell = "=0.1.1"
teloxide = "=0.17.0"
tokio = { version = "=1.54.1", features = ["macros", "rt-multi-thread"] }

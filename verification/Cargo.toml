[package]
name = "ruthub"
version = "0.1.0"
edition = "2021"
publish = false

[dependencies]
actix = "0.13"
actix-web = { version = "4", default-features = false }
chrono = "0.4"
diesel = { version = "2", features = ["postgres", "r2d2", "chrono"] }
dotenv = "0.15"
num_cpus = "1"
regex = "1"
serde = { version = "1", features = ["derive"] }
uuid = { version = "1", features = ["v4"] }

[package]
name = "travel_advisor"
version = "0.1.0"
edition = "2021"
publish = false

[dependencies]
actix-web = { version = "4", default-features = false, features = ["macros"] }
async-trait = "0.1"
bencher = "0.1"
chrono = "0.4"
csv = "1"
derive_more = "0.99"
diesel = { version = "2", features = ["mysql", "r2d2", "chrono"] }
fast_log = "1"
futures-util = "0.3"
jsonwebtoken = "8"
log = "0.4"
md5 = "0.7"
quote = "1"
r2d2 = "0.8"
serde = { version = "1", features = ["derive"] }
serde_json = "1"
sqlx = { version = "0.7", default-features = false, features = ["mysql"] }
syn = "2"
uuid = { version = "1", features = ["v4"] }

[package]
name = "mail_admin"
version = "0.1.0"
edition = "2021"
publish = false

[dependencies]
base64 = "0.22"
bcrypt = "*"
sha1 = "0.10"
rand = "*"
uuid = { version = "1", features = ["v4", "serde"] }
serde = { version = "1", features = ["derive"] }
serde_json = "1"
chrono = { version = "0.4", features = ["serde"] }
log = "0.4"
actix-web = "4"
actix-cors = "*"
deadpool-postgres = "*"
tokio-postgres = { version = "0.7", features = ["with-uuid-1", "with-chrono-0_4", "with-serde_json-1"] }

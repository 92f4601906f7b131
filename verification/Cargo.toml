[package]
name = "pasteit"
version = "0.1.0"
edition = "2021"
publish = false

[dependencies]
aes-gcm = "0.10"
axum = "0.8"
bs62 = "*"
chrono = { version = "0.4", default-features = false, features = ["std", "serde"] }
deadpool-postgres = "*"
dotenvy = "0.15"
hex = "0.4"
native-tls = "0.2"
postgres-native-tls = "*"
regex = "1"
reqwest = { version = "0.12", features = ["json"] }
serde = { version = "1", features = ["derive"] }
serde_json = "1"
sha2 = "0.10"
tokio = { version = "1", features = ["full"] }
tokio-postgres = { version = "0.7", features = ["with-chrono-0_4"] }
tower-http = { version = "0.6", features = ["cors"] }
utoipa = "5"
utoipa-swagger-ui = { version = "9", features = ["axum", "vendored"] }

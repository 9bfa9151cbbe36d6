[package]
name = "admin_console"
version = "0.1.0"
edition = "2021"
publish = false

[dependencies]
dotenv = "=0.15.0"
ldap3 = { version = "=0.12.1", default-features = false, features = ["sync"] }
reqwest = { version = "=0.13.5", default-features = false, features = ["blocking", "form", "json"] }
serde = { version = "=1.0.229", features = ["derive"] }
serde_json = "=1.0.151"
url = "=2.5.8"
webbrowser = "=1.2.4"

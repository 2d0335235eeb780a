[package]
name = "riot_resolver"
version = "0.1.0"
edition = "2021"
publish = false

[dependencies]
urlencoding = "2"
serde = { version = "1", features = ["derive"] }
reqwest = { version = "*", default-features = false, features = ["json"] }
actix-web = { version = "*", default-features = false, features = ["macros"] }
actix-files = "*"
dotenv = "*"
tera = "*"

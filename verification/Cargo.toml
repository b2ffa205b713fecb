[package]
name = "wasm2openapi"
version = "0.1.0"
edition = "2021"
publish = false

[dependencies]
actix-web = { version = "4", default-features = false, features = ["macros"] }
anyhow = "1"
clap = { version = "4", features = ["derive"] }
pretty_env_logger = "0.5"
serde_json = "1"
utoipa = "4"
utoipa-swagger-ui = { version = "6", features = ["actix-web"] }
wasmtime = { version = "16", default-features = false, features = ["cranelift", "component-model"] }
wit-component = "0.19"
wit-parser = "0.13"

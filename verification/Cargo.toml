[package]
name = "rspack_core"
version = "0.1.0"
edition = "2021"
publish = false

[dependencies]
anyhow = "1"
hashbrown = "*"
rayon = "1"
rspack_sources = "*"
serde = { version = "1", features = ["derive"] }
serde_json = "1"
swc_core = { version = "*", features = ["common", "ecma_ast", "ecma_visit"] }
swc_css = "*"
tracing = "0.1"

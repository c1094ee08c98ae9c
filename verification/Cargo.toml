[package]
name = "tantivy_aggregations"
version = "0.1.0"
edition = "2021"
publish = false

[dependencies]
quantiles = "=0.7.1"
serde = "=1.0.118"
serde_derive = "=1.0.118"
tantivy = "=0.11.3"

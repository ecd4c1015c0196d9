[package]
name = "devtools"
version = "0.1.0"
edition = "2021"
publish = false

[dependencies]
calamine = "0.21"
clap = { version = "4", features = ["derive"] }
csv = "1"
json = "0.12"
md-5 = "0.10"
simple_excel_writer = "0.2"
sqlformat = "0.2"

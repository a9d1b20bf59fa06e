[package]
name = "ledger_store"
version = "0.1.0"
edition = "2021"
publish = false

[dependencies]
rusqlite = "*"
sql-builder = "3"

//! A ledger-style record store: clients, their aliases, and the
//! transactions billed to and paid by them, behind one storage interface
//! with a relational and an in-memory engine.

pub mod database;

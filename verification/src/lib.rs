//! An in-memory collection of book records with create, read, update and
//! delete operations, verified against a sequence model.

pub mod book;
pub mod error;
pub mod laws;
pub mod model;
pub mod store;

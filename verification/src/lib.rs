//! An in-memory name registry: callers register named records (name, link,
//! description) tied to their identity, look them up by id, exact name,
//! creator, or substring of name/description, and may update or remove only
//! the records they created.

pub mod io;
pub mod laws;
pub mod matching;
pub mod service;
pub mod store;

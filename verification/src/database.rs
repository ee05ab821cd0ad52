//! What the persistence sink stores, and the queries over it.

pub mod queries;
pub mod schema;

//! The in-memory object hierarchy of a key-value store: a root store of
//! keyspaces, each holding named tables, where a keyspace or a table can be
//! dropped only while nobody else holds a handle to it.

pub mod objectid;
pub mod coremap;
pub mod error;
pub mod cluster;
pub mod table;
pub mod keyspace;
pub mod memstore;
pub mod laws;
pub mod lock;
pub mod bytemarks;

//! Bytemarks: single bytes written into persisted files as metadata. A
//! table's entry carries one model bytemark, selecting its key and value
//! types, and one storage bytemark. The system keyspace has its own.

use vstd::prelude::*;

verus! {

/// Key-value model with key:bin, val:bin
pub const BYTEMARK_MODEL_KV_BIN_BIN: u8 = 0;
/// Key-value model with key:bin, val:str
pub const BYTEMARK_MODEL_KV_BIN_STR: u8 = 1;
/// Key-value model with key:str, val:str
pub const BYTEMARK_MODEL_KV_STR_STR: u8 = 2;
/// Key-value model with key:str, val:bin
pub const BYTEMARK_MODEL_KV_STR_BIN: u8 = 3;
/// Key-value model with key:binstr, val:list<binstr>
pub const BYTEMARK_MODEL_KV_BINSTR_LIST_BINSTR: u8 = 4;
/// Key-value model with key:binstr, val:list<str>
pub const BYTEMARK_MODEL_KV_BINSTR_LIST_STR: u8 = 5;
/// Key-value model with key:str, val:list<binstr>
pub const BYTEMARK_MODEL_KV_STR_LIST_BINSTR: u8 = 6;
/// Key-value model with key:str, val:list<str>
pub const BYTEMARK_MODEL_KV_STR_LIST_STR: u8 = 7;

/// Persistent storage
pub const BYTEMARK_STORAGE_PERSISTENT: u8 = 0;
/// Volatile storage
pub const BYTEMARK_STORAGE_VOLATILE: u8 = 1;

/// The authentication table of the system keyspace
pub const SYSTEM_TABLE_AUTH: u8 = 0;

} // verus!

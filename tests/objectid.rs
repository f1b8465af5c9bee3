use coredb::objectid::ObjectId;
use std::collections::hash_map::DefaultHasher;
use std::hash::{Hash, Hasher};

fn hash_of(id: &ObjectId) -> u64 {
    let mut h = DefaultHasher::new();
    id.hash(&mut h);
    h.finish()
}

#[test]
fn test_def_macro_sanity() {
    let mut def = ObjectId::default_id();
    def.push(b'?');
    assert_eq!(std::str::from_utf8(&def.to_vec()).unwrap(), "default?");
    let mut sys = ObjectId::system_id();
    sys.push(b'?');
    assert_eq!(std::str::from_utf8(&sys.to_vec()).unwrap(), "system?");
}

#[test]
fn from_slice_keeps_bytes() {
    let id = ObjectId::from_slice(b"apps").unwrap();
    assert_eq!(id.len(), 4);
    assert_eq!(id.to_vec(), b"apps".to_vec());
}

#[test]
fn from_slice_takes_64_bytes() {
    let bytes = [b'x'; 64];
    let id = ObjectId::from_slice(&bytes).unwrap();
    assert_eq!(id.len(), 64);
    assert_eq!(id.to_vec(), bytes.to_vec());
}

#[test]
fn from_slice_refuses_65_bytes() {
    let bytes = [b'x'; 65];
    assert!(ObjectId::from_slice(&bytes).is_none());
}

#[test]
fn empty_identifier() {
    let id = ObjectId::from_slice(b"").unwrap();
    assert_eq!(id.len(), 0);
    assert_eq!(id, ObjectId::empty());
}

#[test]
fn equality_is_byte_exact() {
    let a = ObjectId::from_slice(b"default").unwrap();
    assert_eq!(a, ObjectId::default_id());
    assert_ne!(ObjectId::from_slice(b"Default").unwrap(), ObjectId::default_id());
    assert_ne!(ObjectId::from_slice(b"defaults").unwrap(), ObjectId::default_id());
    assert!(!ObjectId::system_id().same_as(&ObjectId::default_id()));
}

#[test]
fn equal_identifiers_hash_equally() {
    let built = ObjectId::from_slice(b"system").unwrap();
    assert_eq!(hash_of(&built), hash_of(&ObjectId::system_id()));
}

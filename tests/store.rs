use coredb::error::DdlError;
use coredb::keyspace::Keyspace;
use coredb::memstore::{Memstore, SnapshotConfig, SnapshotPref};
use coredb::objectid::ObjectId;
use coredb::table::Table;

fn oid(name: &str) -> ObjectId {
    ObjectId::from_slice(name.as_bytes()).unwrap()
}

#[test]
fn default_store_holds_default_and_system() {
    let root = Memstore::new_default();
    assert_eq!(root.keyspaces.len(), 2);
    let d = root.get_keyspace(&oid("default")).unwrap();
    assert_eq!(d.tables.len(), 1);
    assert!(d.get_table(&oid("default")).is_some());
    let s = root.get_keyspace(&oid("system")).unwrap();
    assert_eq!(s.tables.len(), 0);
    assert!(root.snap_config.is_none());
}

#[test]
fn empty_store_has_no_keyspaces() {
    let root = Memstore::new_empty();
    assert_eq!(root.keyspaces.len(), 0);
    assert!(root.get_keyspace(&oid("default")).is_none());
}

#[test]
fn create_and_drop_table_in_default_keyspace() {
    let mut root = Memstore::new_default();
    let ks = root.keyspace_mut(&oid("default"));
    assert!(ks.create_table(oid("apps"), Table::new_default_kve()));
    assert_eq!(ks.drop_table(oid("apps")), Ok(()));
}

#[test]
fn held_table_in_default_keyspace_is_still_in_use() {
    let mut root = Memstore::new_default();
    let ks = root.keyspace_mut(&oid("default"));
    assert!(ks.create_table(oid("apps"), Table::new_default_kve()));
    let h = ks.get_table_atomic_ref(oid("apps")).unwrap();
    assert_eq!(ks.drop_table(oid("apps")), Err(DdlError::StillInUse));
    assert!(ks.release_table(h));
    assert_eq!(ks.drop_table(oid("apps")), Ok(()));
}

#[test]
fn default_table_of_default_keyspace_is_protected() {
    let mut root = Memstore::new_default();
    let ks = root.keyspace_mut(&oid("default"));
    assert_eq!(ks.drop_table(oid("default")), Err(DdlError::ProtectedObject));
}

#[test]
fn reserved_keyspaces_are_protected() {
    let mut root = Memstore::new_default();
    assert_eq!(root.drop_keyspace(oid("system")), Err(DdlError::ProtectedObject));
    assert_eq!(root.drop_keyspace(oid("default")), Err(DdlError::ProtectedObject));
    let mut empty = Memstore::new_empty();
    assert_eq!(empty.drop_keyspace(oid("system")), Err(DdlError::ProtectedObject));
    assert_eq!(root.keyspaces.len(), 2);
}

#[test]
fn create_keyspace_twice() {
    let mut root = Memstore::new_default();
    assert!(root.create_keyspace(oid("apps")));
    assert!(!root.create_keyspace(oid("apps")));
    assert_eq!(root.keyspaces.len(), 3);
}

#[test]
fn create_keyspace_again_after_drop() {
    let mut root = Memstore::new_default();
    assert!(root.create_keyspace(oid("apps")));
    assert_eq!(root.drop_keyspace(oid("apps")), Ok(()));
    assert!(root.create_keyspace(oid("apps")));
    assert!(!root.create_keyspace(oid("apps")));
}

#[test]
fn drop_missing_or_dropped_keyspace_is_not_found() {
    let mut root = Memstore::new_default();
    assert_eq!(root.drop_keyspace(oid("apps")), Err(DdlError::ObjectNotFound));
    assert!(root.create_keyspace(oid("apps")));
    assert_eq!(root.drop_keyspace(oid("apps")), Ok(()));
    assert_eq!(root.drop_keyspace(oid("apps")), Err(DdlError::ObjectNotFound));
}

#[test]
fn held_keyspace_is_still_in_use() {
    let mut root = Memstore::new_default();
    assert!(root.create_keyspace(oid("apps")));
    let h = root.get_keyspace_atomic_ref(oid("apps")).unwrap();
    assert_eq!(root.keyspaces.holders_of(&oid("apps")), Some(1));
    assert_eq!(root.drop_keyspace(oid("apps")), Err(DdlError::StillInUse));
    assert!(root.release_keyspace(h));
    assert_eq!(root.drop_keyspace(oid("apps")), Ok(()));
}

#[test]
fn new_keyspace_is_empty() {
    let mut root = Memstore::new_empty();
    assert!(root.create_keyspace(oid("apps")));
    assert_eq!(root.get_keyspace(&oid("apps")).unwrap().tables.len(), 0);
}

#[test]
fn init_with_all_tracks_snapshots_when_enabled() {
    let mut keyspaces = Memstore::new_default().keyspaces;
    assert!(keyspaces.true_if_insert(oid("logs"), Keyspace::empty()));
    let pref = SnapshotPref { every: 3600, atmost: 4 };
    let root = Memstore::init_with_all(keyspaces, SnapshotConfig::Enabled(pref));
    assert_eq!(root.snap_config.unwrap().max, 4);
    assert_eq!(root.keyspaces.len(), 3);
    let off = Memstore::init_with_all(Memstore::new_empty().keyspaces, SnapshotConfig::Disabled);
    assert!(off.snap_config.is_none());
}

#[test]
fn preload_lock_is_released_at_scope_end() {
    let root = Memstore::new_default();
    {
        let _guard = root.lock_preload();
    }
    let _again = root.lock_preload();
}

#[test]
fn repeated_creates_succeed_once() {
    let mut root = Memstore::new_default();
    let results: Vec<bool> = (0..8).map(|_| root.create_keyspace(oid("shared"))).collect();
    assert_eq!(results.iter().filter(|r| **r).count(), 1);
    assert!(results[0]);
    assert_eq!(root.keyspaces.len(), 3);
}

#[test]
fn work_on_other_keyspaces_leaves_one_alone() {
    let mut root = Memstore::new_empty();
    assert!(root.create_keyspace(oid("a")));
    assert!(root.create_keyspace(oid("b")));
    assert_eq!(root.drop_keyspace(oid("b")), Ok(()));
    assert!(root.create_keyspace(oid("c")));
    assert!(root.get_keyspace(&oid("a")).is_some());
    assert!(root.get_keyspace(&oid("b")).is_none());
}

#[test]
fn created_keyspace_cannot_hold_default_table() {
    let mut root = Memstore::new_default();
    assert!(root.create_keyspace(oid("apps")));
    let ks = root.keyspace_mut(&oid("apps"));
    assert!(!ks.create_table(oid("default"), Table::new_default_kve()));
    assert!(root.get_keyspace(&oid("system")).is_some());
    assert!(!root.get_keyspace(&oid("system")).unwrap().is_default);
    assert!(root.get_keyspace(&oid("default")).unwrap().is_default);
}

#[test]
fn creates_between_drops_succeed_once() {
    let mut root = Memstore::new_empty();
    assert!(root.create_keyspace(oid("k")));
    assert!(!root.create_keyspace(oid("k")));
    assert_eq!(root.drop_keyspace(oid("k")), Ok(()));
    assert_eq!(root.drop_keyspace(oid("k")), Err(DdlError::ObjectNotFound));
    assert!(root.create_keyspace(oid("k")));
    let h = root.get_keyspace_atomic_ref(oid("k")).unwrap();
    assert_eq!(root.drop_keyspace(oid("k")), Err(DdlError::StillInUse));
    assert!(!root.create_keyspace(oid("k")));
    assert!(root.release_keyspace(h));
    assert_eq!(root.drop_keyspace(oid("k")), Ok(()));
    assert!(root.create_keyspace(oid("k")));
}
